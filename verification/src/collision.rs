//! The collision sweep that follows the movement of every tick.
//!
//! The sweep visits the players in the order in which they joined. A player
//! that is dead when its turn comes is passed over. A living one is held
//! against the arena's bounds and against its own trail, and then paired
//! with every player after it: the later head against its trail, its head
//! against the later trail.

use vstd::prelude::*;

use crate::models::player_states::{PlayerModel, PlayerStates};
use crate::models::{GAME_BOARD_HEIGHT, GAME_BOARD_WIDTH};

verus! {

/// Whether the head has left the arena. A head on the border is inside.
pub open spec fn out_of_bounds(p: PlayerModel) -> bool {
    ||| p.position_x > GAME_BOARD_WIDTH / 2
    ||| p.position_x < -(GAME_BOARD_WIDTH / 2)
    ||| p.position_y > GAME_BOARD_HEIGHT / 2
    ||| p.position_y < -(GAME_BOARD_HEIGHT / 2)
}

/// Whether player `j` is still alive after the turns of the first `turns`
/// players. Before any turn it is alive if its flag says so. The turn of a
/// player before it kills it if that player is alive at its own turn and the
/// head of `j` is near its trail.
pub open spec fn alive_after_turns(players: Seq<PlayerModel>, j: int, turns: int) -> bool
    decreases turns,
{
    if turns <= 0 {
        0 <= j < players.len() && players[j].is_alive
    } else {
        let i = turns - 1;
        &&& alive_after_turns(players, j, i)
        &&& !(i < j && alive_after_turns(players, i, i) && players[j].hits(players[i].trail))
    }
}

/// Whether player `j` is alive when its own turn comes.
pub open spec fn alive_at_own_turn(players: Seq<PlayerModel>, j: int) -> bool {
    alive_after_turns(players, j, j)
}

/// Whether player `j` is alive after the whole sweep: it is alive at its own
/// turn, inside the arena, away from the lethal part of its own trail and
/// away from the trail of every player after it.
pub open spec fn survives(players: Seq<PlayerModel>, j: int) -> bool {
    &&& alive_at_own_turn(players, j)
    &&& !out_of_bounds(players[j])
    &&& !players[j].hits_own_trail()
    &&& forall|k: int| j < k < players.len() ==> !players[j].hits(#[trigger] players[k].trail)
}

/// The players after the sweep: nothing but the alive flags has changed, and
/// a player is alive exactly if it survives.
pub open spec fn swept(players: Seq<PlayerModel>) -> Seq<PlayerModel> {
    Seq::new(players.len(), |j: int| PlayerModel { is_alive: survives(players, j), ..players[j] })
}

/// The mathematical values of a vector of players.
pub open spec fn models_of(players: Seq<PlayerStates>) -> Seq<PlayerModel> {
    players.map_values(|p: PlayerStates| p@)
}

/// One more turn: player `j` stays alive through the turn of player `i`
/// unless `i` was alive at its turn and the head of `j` is near its trail.
proof fn lemma_one_more_turn(players: Seq<PlayerModel>, j: int, i: int)
    requires
        0 <= i < j < players.len(),
    ensures
        alive_after_turns(players, j, i + 1) == (alive_after_turns(players, j, i) && !(
        alive_at_own_turn(players, i) && players[j].hits(players[i].trail))),
{
}

/// A player is alive after some turns exactly if its flag is up and none of
/// the players whose turn it was, and who were alive at their turn, has a
/// trail that its head is near.
pub proof fn lemma_alive_after_turns(players: Seq<PlayerModel>, j: int, turns: int)
    requires
        0 <= turns <= j < players.len(),
    ensures
        alive_after_turns(players, j, turns) == (players[j].is_alive && forall|i: int|
            0 <= i < turns ==> !(alive_at_own_turn(players, i) && players[j].hits(
                #[trigger] players[i].trail,
            ))),
    decreases turns,
{
    if turns > 0 {
        lemma_alive_after_turns(players, j, turns - 1);
        lemma_one_more_turn(players, j, turns - 1);
        if alive_after_turns(players, j, turns) {
            assert forall|i: int| 0 <= i < turns implies !(alive_at_own_turn(players, i)
                && players[j].hits(#[trigger] players[i].trail)) by {}
        } else if players[j].is_alive && alive_after_turns(players, j, turns - 1) {
            assert(alive_at_own_turn(players, turns - 1) && players[j].hits(
                players[turns - 1].trail,
            ));
        }
    }
}

/// Whether the head of a player has left the arena.
pub fn is_out_of_bounds(player: &PlayerStates) -> (out: bool)
    ensures
        out == out_of_bounds(player@),
{
    let x: i64 = player.position_x as i64;
    let y: i64 = player.position_y as i64;
    x > GAME_BOARD_WIDTH / 2 || x < -(GAME_BOARD_WIDTH / 2) || y > GAME_BOARD_HEIGHT / 2 || y < -(
    GAME_BOARD_HEIGHT / 2)
}

/// Runs the collision sweep: lowers the alive flag of every player that does
/// not survive it and changes nothing else.
pub fn sweep(players: &mut Vec<PlayerStates>)
    ensures
        models_of(final(players)@) == swept(models_of(old(players)@)),
        final(players)@.len() == old(players)@.len(),
{
    let ghost before = models_of(players@);
    let n = players.len();
    let mut alive: Vec<bool> = Vec::new();
    let mut c: usize = 0;
    while c < n
        invariant
            c <= n,
            n == players@.len(),
            alive@.len() == c,
            before == models_of(players@),
            forall|k: int| 0 <= k < c ==> alive@[k] == before[k].is_alive,
        decreases n - c,
    {
        alive.push(players[c].is_alive);
        c = c + 1;
    }
    assert forall|k: int| 0 <= k < n implies alive@[k] == alive_after_turns(before, k, 0) by {}
    let mut i: usize = 0;
    while i < n
        invariant
            i <= n,
            n == players@.len(),
            alive@.len() == n,
            before == models_of(players@),
            forall|h: int| 0 <= h < i ==> alive@[h] == survives(before, h),
            forall|k: int| i <= k < n ==> alive@[k] == alive_after_turns(before, k, i as int),
        decreases n - i,
    {
        if alive[i] {
            assert(alive_at_own_turn(before, i as int));
            let mut lost: bool = is_out_of_bounds(&players[i]) || players[i].touches_own_trail();
            let mut j: usize = i + 1;
            while j < n
                invariant
                    i < j <= n,
                    n == players@.len(),
                    alive@.len() == n,
                    before == models_of(players@),
                    alive_at_own_turn(before, i as int),
                    alive@[i as int],
                    forall|h: int| 0 <= h < i ==> alive@[h] == survives(before, h),
                    forall|k: int| i < k < j ==> alive@[k] == alive_after_turns(before, k, i + 1),
                    forall|k: int| j <= k < n ==> alive@[k] == alive_after_turns(before, k, i as int),
                    !lost == (!out_of_bounds(before[i as int]) && !before[i as int].hits_own_trail()
                        && forall|k: int|
                        i < k < j ==> !before[i as int].hits(#[trigger] before[k].trail)),
                decreases n - j,
            {
                proof {
                    lemma_one_more_turn(before, j as int, i as int);
                    assert(before[i as int] == players@[i as int]@);
                    assert(before[j as int] == players@[j as int]@);
                }
                let ghost lost_before = lost;
                if alive[j] && players[j].collide_with_trail_collection(&players[i].trail) {
                    alive[j] = false;
                }
                if players[i].collide_with_trail_collection(&players[j].trail) {
                    lost = true;
                }
                proof {
                    if !lost {
                        assert forall|k: int| i < k < j + 1 implies !before[i as int].hits(
                            #[trigger] before[k].trail,
                        ) by {}
                    } else if !lost_before {
                        assert(before[i as int].hits(before[j as int].trail));
                    }
                }
                j = j + 1;
            }
            if lost {
                alive[i] = false;
            }
        } else {
            assert(!alive_at_own_turn(before, i as int));
            assert forall|k: int| i < k < n implies alive@[k] == alive_after_turns(
                before,
                k,
                i + 1,
            ) by {
                lemma_one_more_turn(before, k, i as int);
            }
        }
        i = i + 1;
    }
    let mut a: usize = 0;
    while a < n
        invariant
            a <= n,
            n == players@.len(),
            alive@.len() == n,
            models_of(players@).len() == n,
            before.len() == n,
            forall|h: int| 0 <= h < n ==> alive@[h] == survives(before, h),
            forall|h: int|
                0 <= h < a ==> (#[trigger] models_of(players@)[h]) == (PlayerModel {
                    is_alive: alive@[h],
                    ..before[h]
                }),
            forall|h: int| a <= h < n ==> (#[trigger] models_of(players@)[h]) == before[h],
        decreases n - a,
    {
        let ghost prior = models_of(players@);
        assert(prior[a as int] == players@[a as int]@);
        players[a].is_alive = alive[a];
        assert forall|h: int| 0 <= h < n && h != a implies (#[trigger] models_of(players@)[h])
            == prior[h] by {
            assert(models_of(players@)[h] == players@[h]@);
        }
        assert(models_of(players@)[a as int] == players@[a as int]@);
        a = a + 1;
    }
    assert(models_of(players@) =~= swept(before));
}

} // verus!
