//! What one tick of a running round does to the players.

use vstd::prelude::*;

use crate::collision::{models_of, sweep, swept};
use crate::models::player_states::{PlayerModel, PlayerStates};

verus! {

/// The players after the movement of one tick: every living player has
/// steered and moved, every dead one is as it was.
pub open spec fn advanced_all(players: Seq<PlayerModel>) -> Seq<PlayerModel> {
    players.map_values(|p: PlayerModel| p.advanced())
}

/// The players after one whole tick: movement first, then the sweep.
pub open spec fn after_tick(players: Seq<PlayerModel>) -> Seq<PlayerModel> {
    swept(advanced_all(players))
}

/// The number of living players.
pub open spec fn count_alive(players: Seq<PlayerModel>) -> nat {
    players.filter(|p: PlayerModel| p.is_alive).len()
}

/// Steers and moves every living player.
pub fn advance_players(players: &mut Vec<PlayerStates>)
    ensures
        models_of(final(players)@) == advanced_all(models_of(old(players)@)),
        final(players)@.len() == old(players)@.len(),
{
    let ghost before = models_of(players@);
    let n = players.len();
    let mut i: usize = 0;
    while i < n
        invariant
            i <= n,
            n == players@.len(),
            before.len() == n,
            forall|h: int| 0 <= h < i ==> (#[trigger] models_of(players@)[h]) == before[h].advanced(),
            forall|h: int| i <= h < n ==> (#[trigger] models_of(players@)[h]) == before[h],
        decreases n - i,
    {
        let ghost prior = models_of(players@);
        assert(prior[i as int] == players@[i as int]@);
        if players[i].is_alive {
            players[i].steer_player();
            players[i].move_player();
        }
        assert forall|h: int| 0 <= h < n && h != i implies (#[trigger] models_of(players@)[h])
            == prior[h] by {
            assert(models_of(players@)[h] == players@[h]@);
        }
        assert(models_of(players@)[i as int] == players@[i as int]@);
        i = i + 1;
    }
    assert(models_of(players@) =~= advanced_all(before));
}

/// Counts the living players.
pub fn living_players(players: &Vec<PlayerStates>) -> (count: usize)
    ensures
        count == count_alive(models_of(players@)),
{
    let ghost all = models_of(players@);
    let ghost alive = |p: PlayerModel| p.is_alive;
    let mut count: usize = 0;
    let mut i: usize = 0;
    assert(all.take(0) =~= Seq::empty());
    while i < players.len()
        invariant
            i <= players@.len(),
            all == models_of(players@),
            alive == |p: PlayerModel| p.is_alive,
            count == all.take(i as int).filter(alive).len(),
            count <= i,
        decreases players@.len() - i,
    {
        proof {
            assert(all.take(i + 1) =~= all.take(i as int).push(all[i as int]));
            all.take(i as int).lemma_filter_len_push(alive, all[i as int]);
            assert(all[i as int] == players@[i as int]@);
        }
        if players[i].is_alive {
            count = count + 1;
        }
        i = i + 1;
    }
    assert(all.take(players@.len() as int) =~= all);
    count
}

/// Advances the players by one tick of a running round.
pub fn tick_players(players: &mut Vec<PlayerStates>)
    ensures
        models_of(final(players)@) == after_tick(models_of(old(players)@)),
        final(players)@.len() == old(players)@.len(),
{
    advance_players(players);
    sweep(players);
}

} // verus!
