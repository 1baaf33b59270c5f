//! What holds of the game whatever its players do.

use vstd::prelude::*;

use crate::collision::{alive_after_turns, out_of_bounds, survives, swept};
use crate::game_state::{
    lemma_with_player_keeps_consistent, lemma_without_keeps_consistent, GameModel,
};
use crate::models::direction::Direction;
use crate::models::heading::{lemma_step_along_axes, tick_step};
use crate::models::player_states::{LobbyState, PlayerModel};
use crate::models::{COUNTDOWN_SECONDS, MOVE_SPEED, MOVE_SPEED_PER_TICK, TICKS_PER_SECOND};
use crate::round::{advanced_all, after_tick};

verus! {

/// A connection that joins or leaves.
pub enum RosterEvent<S> {
    /// A connection joins under an identifier, with its sink.
    Join(Seq<char>, S),
    /// The connection registered under an identifier leaves.
    Leave(Seq<char>),
}

/// The state after a sequence of joins and leaves, first to last.
pub open spec fn after_events<S>(state: GameModel<S>, events: Seq<RosterEvent<S>>) -> GameModel<S>
    decreases events.len(),
{
    if events.len() == 0 {
        state
    } else {
        let earlier = after_events(state, events.drop_last());
        match events.last() {
            RosterEvent::Join(id, sink) => earlier.with_player(id, sink),
            RosterEvent::Leave(id) => earlier.without(id),
        }
    }
}

/// Whatever sequence of connections joins and leaves a consistent store,
/// the players and the sinks carry the same identifiers afterwards, and
/// none twice. In particular the set of the players' identifiers is the set
/// of the sinks' identifiers.
pub proof fn lemma_roster_matches_sinks<S>(state: GameModel<S>, events: Seq<RosterEvent<S>>)
    requires
        state.consistent(),
    ensures
        after_events(state, events).consistent(),
        after_events(state, events).player_ids().to_set() == after_events(
            state,
            events,
        ).socket_ids().to_set(),
    decreases events.len(),
{
    if events.len() > 0 {
        lemma_roster_matches_sinks(state, events.drop_last());
        let earlier = after_events(state, events.drop_last());
        match events.last() {
            RosterEvent::Join(id, sink) => lemma_with_player_keeps_consistent(earlier, id, sink),
            RosterEvent::Leave(id) => lemma_without_keeps_consistent(earlier, id),
        }
    }
}

/// A store that nobody has joined is consistent.
pub proof fn lemma_empty_is_consistent<S>()
    ensures
        GameModel::<S>::empty().consistent(),
{
    let state = GameModel::<S>::empty();
    assert(state.player_ids() =~= state.socket_ids());
}

/// Placing the players for a round changes neither who is registered nor
/// the order; placing them again changes it no more.
pub proof fn lemma_round_start_keeps_players<S>(before: GameModel<S>, after: GameModel<S>)
    requires
        after.is_round_start_of(before),
    ensures
        after.player_ids() == before.player_ids(),
        after.socket_ids() == before.socket_ids(),
        before.consistent() ==> after.consistent(),
{
    assert(after.player_ids() =~= before.player_ids()) by {
        assert forall|i: int| 0 <= i < after.players.len() implies after.player_ids()[i]
            == before.player_ids()[i] by {
            assert(after.players[i].is_spawn_of(before.players[i]));
        }
    }
}

/// The player after `ticks` ticks of movement with nothing in its way.
pub open spec fn advanced_times(p: PlayerModel, ticks: nat) -> PlayerModel
    decreases ticks,
{
    if ticks == 0 {
        p
    } else {
        advanced_times(p, (ticks - 1) as nat).advanced()
    }
}

/// A living player that steers straight advances by exactly one step of
/// its heading on every tick, for as long as its coordinates stay in the
/// range of `i32`: after `ticks` ticks it stands `ticks` steps from where it
/// began, heads the same way, and its trail is longer by `ticks` points.
pub proof fn lemma_straight_line(p: PlayerModel, ticks: nat)
    requires
        p.is_alive,
        p.current_direction == Direction::Straight,
        i32::MIN <= p.position_x + ticks * tick_step(p.direction as int).0 <= i32::MAX,
        i32::MIN <= p.position_y + ticks * tick_step(p.direction as int).1 <= i32::MAX,
    ensures
        advanced_times(p, ticks).position_x == p.position_x + ticks * tick_step(
            p.direction as int,
        ).0,
        advanced_times(p, ticks).position_y == p.position_y + ticks * tick_step(
            p.direction as int,
        ).1,
        advanced_times(p, ticks).trail.len() == p.trail.len() + ticks,
        advanced_times(p, ticks).direction == p.direction,
        advanced_times(p, ticks).current_direction == Direction::Straight,
        advanced_times(p, ticks).is_alive,
        advanced_times(p, ticks).trail.take(p.trail.len() as int) == p.trail,
    decreases ticks,
{
    let dx = tick_step(p.direction as int).0;
    let dy = tick_step(p.direction as int).1;
    if ticks == 0 {
        assert(0 * dx == 0 && 0 * dy == 0);
        assert(p.trail.take(p.trail.len() as int) =~= p.trail);
    } else {
        let fewer = (ticks - 1) as nat;
        lemma_between(p.position_x as int, dx, fewer as int, ticks as int);
        lemma_between(p.position_y as int, dy, fewer as int, ticks as int);
        lemma_straight_line(p, fewer);
        let q = advanced_times(p, fewer);
        assert(ticks * dx == fewer * dx + dx) by (nonlinear_arith)
            requires
                ticks == fewer + 1,
        ;
        assert(ticks * dy == fewer * dy + dy) by (nonlinear_arith)
            requires
                ticks == fewer + 1,
        ;
        assert(q.advanced().trail.take(p.trail.len() as int) =~= q.trail.take(
            p.trail.len() as int,
        ));
    }
}

/// A living player that heads along the x axis and steers straight is,
/// after any number of ticks, exactly that many times `MOVE_SPEED_PER_TICK`
/// further along the axis, for as long as its coordinate stays in the range
/// of `i32`. After the ticks of one second it is `MOVE_SPEED` further.
pub proof fn lemma_straight_along_the_axis(p: PlayerModel, ticks: nat)
    requires
        p.is_alive,
        p.current_direction == Direction::Straight,
        p.direction == 0,
        p.position_x + ticks * MOVE_SPEED_PER_TICK <= i32::MAX,
    ensures
        advanced_times(p, ticks).position_x == p.position_x + ticks * MOVE_SPEED_PER_TICK,
        advanced_times(p, ticks).position_y == p.position_y,
        advanced_times(p, ticks).trail.len() == p.trail.len() + ticks,
        ticks == TICKS_PER_SECOND ==> advanced_times(p, ticks).position_x == p.position_x
            + MOVE_SPEED,
{
    lemma_step_along_axes();
    assert(ticks * 0 == 0) by (nonlinear_arith);
    assert(0 <= ticks * MOVE_SPEED_PER_TICK) by (nonlinear_arith)
        requires
            0 <= ticks,
    ;
    lemma_straight_line(p, ticks);
}

/// A point part of the way along a line lies between the line's ends.
proof fn lemma_between(start: int, step: int, part: int, whole: int)
    requires
        0 <= part <= whole,
        i32::MIN <= start <= i32::MAX,
        i32::MIN <= start + whole * step <= i32::MAX,
    ensures
        i32::MIN <= start + part * step <= i32::MAX,
{
    if step >= 0 {
        assert(0 <= part * step <= whole * step) by (nonlinear_arith)
            requires
                0 <= part <= whole,
                step >= 0,
        ;
    } else {
        assert(whole * step <= part * step <= 0) by (nonlinear_arith)
            requires
                0 <= part <= whole,
                step < 0,
        ;
    }
}

/// Whether no living player is in any danger: each is inside the arena,
/// away from the lethal part of its own trail and away from every other
/// player's trail.
pub open spec fn all_clear(players: Seq<PlayerModel>) -> bool {
    forall|j: int|
        0 <= j < players.len() && (#[trigger] players[j]).is_alive ==> {
            &&& !out_of_bounds(players[j])
            &&& !players[j].hits_own_trail()
            &&& forall|k: int|
                0 <= k < players.len() && k != j ==> !players[j].hits(#[trigger] players[k].trail)
        }
}

/// A sweep over players of whom none is in danger kills nobody and changes
/// nothing.
pub proof fn lemma_clear_sweep_kills_nobody(players: Seq<PlayerModel>)
    requires
        all_clear(players),
    ensures
        swept(players) == players,
{
    assert forall|j: int| 0 <= j < players.len() implies survives(players, j)
        == players[j].is_alive by {
        lemma_clear_turns(players, j, j);
        if players[j].is_alive {
            assert forall|k: int| j < k < players.len() implies !players[j].hits(
                #[trigger] players[k].trail,
            ) by {}
        }
    }
    assert(swept(players) =~= players);
}

/// With nobody in danger, the turns of other players kill nobody.
proof fn lemma_clear_turns(players: Seq<PlayerModel>, j: int, turns: int)
    requires
        all_clear(players),
        0 <= j < players.len(),
        0 <= turns <= j,
    ensures
        alive_after_turns(players, j, turns) == players[j].is_alive,
    decreases turns,
{
    if turns > 0 {
        lemma_clear_turns(players, j, turns - 1);
        if players[j].is_alive {
            assert(!players[j].hits(players[turns - 1].trail));
        }
    }
}

/// While nobody is in danger after moving, a tick only moves the players:
/// whoever was alive is alive.
pub proof fn lemma_clear_tick_keeps_everybody(players: Seq<PlayerModel>)
    requires
        all_clear(advanced_all(players)),
    ensures
        after_tick(players) == advanced_all(players),
        forall|j: int|
            0 <= j < players.len() ==> (#[trigger] after_tick(players)[j]).is_alive
                == players[j].is_alive,
{
    lemma_clear_sweep_kills_nobody(advanced_all(players));
}

/// The sweep kills every player whose head is near the lethal part of its
/// own trail, and every player whose head has left the arena.
pub proof fn lemma_sweep_kills(players: Seq<PlayerModel>, j: int)
    requires
        0 <= j < players.len(),
        players[j].hits_own_trail() || out_of_bounds(players[j]),
    ensures
        !swept(players)[j].is_alive,
{
}

/// The sweep changes nothing but alive flags, and raises none.
pub proof fn lemma_sweep_only_kills(players: Seq<PlayerModel>, j: int)
    requires
        0 <= j < players.len(),
    ensures
        swept(players)[j] == players[j].killed_if(!survives(players, j)),
        swept(players)[j].is_alive ==> players[j].is_alive,
{
    lemma_alive_needs_flag(players, j, j);
}

/// Only a player whose flag is up is alive after any number of turns.
proof fn lemma_alive_needs_flag(players: Seq<PlayerModel>, j: int, turns: int)
    requires
        0 <= turns,
    ensures
        alive_after_turns(players, j, turns) ==> 0 <= j < players.len() && players[j].is_alive,
    decreases turns,
{
    if turns > 0 {
        lemma_alive_needs_flag(players, j, turns - 1);
    }
}

/// A dead player is out of the round: a tick neither moves it, nor
/// lengthens its trail, nor brings it back to life.
pub proof fn lemma_dead_stay_put(players: Seq<PlayerModel>, j: int)
    requires
        0 <= j < players.len(),
        !players[j].is_alive,
    ensures
        after_tick(players)[j] == players[j],
{
    let moved = advanced_all(players);
    assert(moved[j] == players[j]);
    lemma_sweep_only_kills(moved, j);
}

/// A player whose head is near the lethal part of its own trail once it
/// has moved is dead after that tick and stays where it is from then on.
pub proof fn lemma_own_trail_is_fatal(players: Seq<PlayerModel>, j: int)
    requires
        0 <= j < players.len(),
        players[j].advanced().hits_own_trail(),
    ensures
        !after_tick(players)[j].is_alive,
        after_tick(after_tick(players))[j] == after_tick(players)[j],
{
    let moved = advanced_all(players);
    assert(moved[j] == players[j].advanced());
    lemma_sweep_kills(moved, j);
    lemma_dead_stay_put(after_tick(players), j);
}

/// Every transition of the lobby leaves the phase as it is or follows one
/// edge of the state machine; none skips a phase.
pub proof fn lemma_lobby_follows_edges(phase: LobbyState, alive: nat)
    ensures
        phase.after_start_request() == phase || phase.steps_to(phase.after_start_request()),
        phase.after_second() == phase || phase.steps_to(phase.after_second()),
        phase.after_launch() == phase || phase.steps_to(phase.after_launch()),
        phase.after_tick(alive) == phase || phase.steps_to(phase.after_tick(alive)),
        phase.after_start_request() != phase <==> phase is Waiting,
        phase.after_second() != phase <==> (phase matches LobbyState::Countdown(k) && k > 0),
        phase.after_launch() != phase <==> phase == LobbyState::Countdown(0),
        phase.after_tick(alive) != phase <==> (phase is Running && alive <= 1),
{
}

/// The phase after `seconds` seconds of countdown.
pub open spec fn after_seconds(phase: LobbyState, seconds: nat) -> LobbyState
    decreases seconds,
{
    if seconds == 0 {
        phase
    } else {
        after_seconds(phase, (seconds - 1) as nat).after_second()
    }
}

/// A countdown that stands at `k` stands at `k - n` after `n` seconds, for
/// every `n` up to `k`, and stays at zero from then on: it never goes below
/// zero and never starts the round by itself.
pub proof fn lemma_countdown_counts(k: u32, seconds: nat)
    ensures
        after_seconds(LobbyState::Countdown(k), seconds) == LobbyState::Countdown(
            if seconds <= k {
                (k - seconds) as u32
            } else {
                0
            },
        ),
    decreases seconds,
{
    if seconds > 0 {
        lemma_countdown_counts(k, (seconds - 1) as nat);
    }
}

/// From a waiting lobby, a start request, the full count of seconds and
/// the launch lead to a running round, and a tick that leaves at most one
/// player alive ends it.
pub proof fn lemma_round_runs_its_course(alive: nat)
    requires
        alive <= 1,
    ensures
        after_seconds(
            LobbyState::Waiting.after_start_request(),
            COUNTDOWN_SECONDS as nat,
        ).after_launch() == LobbyState::Running,
        LobbyState::Running.after_tick(alive) == LobbyState::Finished,
{
    lemma_countdown_counts(COUNTDOWN_SECONDS, COUNTDOWN_SECONDS as nat);
}

/// A tick moves the lobby along an edge or not at all.
pub proof fn lemma_tick_follows_edges<S>(state: GameModel<S>)
    ensures
        state.stepped().lobby_state == state.lobby_state || state.lobby_state.steps_to(
            state.stepped().lobby_state,
        ),
        !(state.lobby_state is Running) ==> state.stepped() == state,
{
}

/// A steering update touches the sender's player and nobody else's.
pub proof fn lemma_steering_is_private<S>(
    state: GameModel<S>,
    id: Seq<char>,
    direction: Direction,
    i: int,
)
    requires
        0 <= i < state.players.len(),
        state.players[i].id != id,
    ensures
        state.with_steering(id, direction).players.len() == state.players.len(),
        state.with_steering(id, direction).players[i] == state.players[i],
{
    state.player_ids().index_of_first_ensures(id);
}

/// A heading in `0 .. FULL_TURN` stays there through every tick.
pub proof fn lemma_heading_stays_normalized(p: PlayerModel)
    requires
        p.has_heading(),
    ensures
        p.steered().has_heading(),
        p.moved().has_heading(),
        p.advanced().has_heading(),
{
}

/// During a round a trail only grows: what a tick leaves of a player's
/// trail begins with the trail as it was, and is longer by one point if the
/// player was alive and by none if it was dead.
pub proof fn lemma_trail_only_grows(players: Seq<PlayerModel>, j: int)
    requires
        0 <= j < players.len(),
    ensures
        after_tick(players)[j].trail.take(players[j].trail.len() as int) == players[j].trail,
        after_tick(players)[j].trail.len() == players[j].trail.len() + if players[j].is_alive {
            1int
        } else {
            0int
        },
{
    let moved = advanced_all(players);
    assert(moved[j] == players[j].advanced());
    assert(after_tick(players)[j].trail == moved[j].trail);
    assert(moved[j].trail.take(players[j].trail.len() as int) =~= players[j].trail);
}

/// The state after `ticks` ticks.
pub open spec fn stepped_times<S>(state: GameModel<S>, ticks: nat) -> GameModel<S>
    decreases ticks,
{
    if ticks == 0 {
        state
    } else {
        stepped_times(state, (ticks - 1) as nat).stepped()
    }
}

/// A tick of a running round leaves every player as its own movement
/// leaves it, but for the alive flag, which the sweep may have lowered.
pub proof fn lemma_tick_moves_the_players<S>(state: GameModel<S>, i: int)
    requires
        state.lobby_state is Running,
        0 <= i < state.players.len(),
    ensures
        state.stepped().players.len() == state.players.len(),
        state.stepped().players[i] == (PlayerModel {
            is_alive: state.stepped().players[i].is_alive,
            ..state.players[i].advanced()
        }),
        state.stepped().players[i].is_alive ==> state.players[i].is_alive,
{
    let moved = advanced_all(state.players);
    assert(moved[i] == state.players[i].advanced());
    lemma_sweep_only_kills(moved, i);
}

/// A player that is alive after `ticks` ticks of a round that was running
/// all the while stands exactly where its own movement, tick after tick,
/// has taken it: no other player and no sweep has touched it.
pub proof fn lemma_running_players_advance<S>(state: GameModel<S>, i: int, ticks: nat)
    requires
        0 <= i < state.players.len(),
        forall|m: nat| m < ticks ==> (#[trigger] stepped_times(state, m)).lobby_state is Running,
        stepped_times(state, ticks).players[i].is_alive,
    ensures
        stepped_times(state, ticks).players.len() == state.players.len(),
        stepped_times(state, ticks).players[i] == advanced_times(state.players[i], ticks),
    decreases ticks,
{
    if ticks > 0 {
        let fewer = (ticks - 1) as nat;
        let earlier = stepped_times(state, fewer);
        assert(earlier.lobby_state is Running);
        lemma_players_stay(state, fewer);
        lemma_tick_moves_the_players(earlier, i);
        assert forall|m: nat| m < fewer implies (#[trigger] stepped_times(
            state,
            m,
        )).lobby_state is Running by {}
        lemma_running_players_advance(state, i, fewer);
    }
}

/// However many ticks pass, the players are as many as they were.
pub proof fn lemma_players_stay<S>(state: GameModel<S>, ticks: nat)
    ensures
        stepped_times(state, ticks).players.len() == state.players.len(),
        stepped_times(state, ticks).sockets == state.sockets,
    decreases ticks,
{
    if ticks > 0 {
        lemma_players_stay(state, (ticks - 1) as nat);
    }
}

/// A living player of a running round that steers straight is, after
/// `ticks` ticks that it has survived, `ticks` steps of its heading from
/// where it began, and its trail is longer by `ticks` points.
pub proof fn lemma_running_straight_line<S>(state: GameModel<S>, i: int, ticks: nat)
    requires
        0 <= i < state.players.len(),
        forall|m: nat| m < ticks ==> (#[trigger] stepped_times(state, m)).lobby_state is Running,
        stepped_times(state, ticks).players[i].is_alive,
        state.players[i].is_alive,
        state.players[i].current_direction == Direction::Straight,
        i32::MIN <= state.players[i].position_x + ticks * tick_step(
            state.players[i].direction as int,
        ).0 <= i32::MAX,
        i32::MIN <= state.players[i].position_y + ticks * tick_step(
            state.players[i].direction as int,
        ).1 <= i32::MAX,
    ensures
        stepped_times(state, ticks).players[i].position_x == state.players[i].position_x + ticks
            * tick_step(state.players[i].direction as int).0,
        stepped_times(state, ticks).players[i].position_y == state.players[i].position_y + ticks
            * tick_step(state.players[i].direction as int).1,
        stepped_times(state, ticks).players[i].trail.len() == state.players[i].trail.len() + ticks,
        stepped_times(state, ticks).players[i].direction == state.players[i].direction,
{
    lemma_running_players_advance(state, i, ticks);
    lemma_straight_line(state.players[i], ticks);
}

/// Two connections that join an empty store under different identifiers
/// are its two players, in the order in which they joined, both alive, with
/// their sinks under just these identifiers, and the lobby is waiting.
pub proof fn lemma_two_join<S>(first: Seq<char>, first_sink: S, second: Seq<char>, second_sink: S)
    requires
        first != second,
    ensures
        GameModel::<S>::empty().with_player(first, first_sink).with_player(
            second,
            second_sink,
        ).players == seq![PlayerModel::fresh(first), PlayerModel::fresh(second)],
        GameModel::<S>::empty().with_player(first, first_sink).with_player(
            second,
            second_sink,
        ).sockets == seq![(first, first_sink), (second, second_sink)],
        GameModel::<S>::empty().with_player(first, first_sink).with_player(
            second,
            second_sink,
        ).lobby_state == LobbyState::Waiting,
{
    let none = GameModel::<S>::empty();
    none.player_ids().index_of_first_ensures(first);
    none.socket_ids().index_of_first_ensures(first);
    let one = none.with_player(first, first_sink);
    assert(one.players =~= seq![PlayerModel::fresh(first)]);
    assert(one.sockets =~= seq![(first, first_sink)]);
    one.player_ids().index_of_first_ensures(second);
    one.socket_ids().index_of_first_ensures(second);
    let two = one.with_player(second, second_sink);
    assert(two.players =~= seq![PlayerModel::fresh(first), PlayerModel::fresh(second)]);
    assert(two.sockets =~= seq![(first, first_sink), (second, second_sink)]);
}

} // verus!
