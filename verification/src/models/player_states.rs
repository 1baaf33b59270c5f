//! The lobby state machine and the per-player state.

use vstd::prelude::*;

use super::direction::Direction;
use super::heading::{heading_step, normalize_angle, tick_step, wrap_angle};
use super::{
    COLLISION_RADIUS, COUNTDOWN_SECONDS, ROTATION_SPEED_PER_TICK, SELF_TRAIL_GRACE, SPAWN_MAX,
    SPAWN_MIN,
};

verus! {

/// Phase of the one round that a server hosts.
#[derive(Clone, Copy, Debug, PartialEq, Eq, Structural)]
pub enum LobbyState {
    /// No round in progress; players may join.
    Waiting,
    /// A round was requested; the payload is the number of seconds left.
    Countdown(u32),
    /// The tick loop advances the players.
    Running,
    /// The round is over and its result is frozen.
    Finished,
}

impl LobbyState {
    /// The phase that a start request leads to: `Countdown(COUNTDOWN_SECONDS)`
    /// from `Waiting`, and no change from any other phase.
    pub open spec fn after_start_request(self) -> LobbyState {
        match self {
            LobbyState::Waiting => LobbyState::Countdown(COUNTDOWN_SECONDS),
            _ => self,
        }
    }

    /// The phase one second of countdown leads to: `Countdown(k - 1)` from
    /// `Countdown(k)` with `k > 0`, and no change from any other phase.
    pub open spec fn after_second(self) -> LobbyState {
        match self {
            LobbyState::Countdown(k) if k > 0 => LobbyState::Countdown((k - 1) as u32),
            _ => self,
        }
    }

    /// The phase that the end of the countdown leads to: `Running` from
    /// `Countdown(0)`, and no change from any other phase.
    pub open spec fn after_launch(self) -> LobbyState {
        match self {
            LobbyState::Countdown(k) if k == 0 => LobbyState::Running,
            _ => self,
        }
    }

    /// The phase a finished tick leads to when `alive` players are left:
    /// `Finished` from `Running` with at most one, and no change otherwise.
    pub open spec fn after_tick(self, alive: nat) -> LobbyState {
        match self {
            LobbyState::Running if alive <= 1 => LobbyState::Finished,
            _ => self,
        }
    }

    /// The edges of the lobby state machine.
    pub open spec fn steps_to(self, next: LobbyState) -> bool {
        match self {
            LobbyState::Waiting => next == LobbyState::Countdown(COUNTDOWN_SECONDS),
            LobbyState::Countdown(k) => if k > 0 {
                next == LobbyState::Countdown((k - 1) as u32)
            } else {
                next == LobbyState::Running
            },
            LobbyState::Running => next == LobbyState::Finished,
            LobbyState::Finished => false,
        }
    }

    /// Whether the tick loop has anything to send in this phase.
    pub open spec fn is_active(self) -> bool {
        self is Countdown || self is Running
    }

    /// Handles a start request.
    pub fn request_start(self) -> (next: LobbyState)
        ensures
            next == self.after_start_request(),
    {
        match self {
            LobbyState::Waiting => LobbyState::Countdown(COUNTDOWN_SECONDS),
            _ => self,
        }
    }

    /// Counts one second down.
    pub fn count_down(self) -> (next: LobbyState)
        ensures
            next == self.after_second(),
    {
        match self {
            LobbyState::Countdown(k) => if k > 0 {
                LobbyState::Countdown(k - 1)
            } else {
                self
            },
            _ => self,
        }
    }

    /// Starts the round once the countdown has reached zero.
    pub fn launch(self) -> (next: LobbyState)
        ensures
            next == self.after_launch(),
    {
        match self {
            LobbyState::Countdown(k) => if k == 0 {
                LobbyState::Running
            } else {
                self
            },
            _ => self,
        }
    }

    /// Ends a running round when at most one player is left alive.
    pub fn conclude(self, alive: usize) -> (next: LobbyState)
        ensures
            next == self.after_tick(alive as nat),
    {
        match self {
            LobbyState::Running => if alive <= 1 {
                LobbyState::Finished
            } else {
                self
            },
            _ => self,
        }
    }

    /// Whether the tick loop sends snapshots in this phase.
    pub fn should_update(self) -> (active: bool)
        ensures
            active == self.is_active(),
    {
        match self {
            LobbyState::Waiting => false,
            LobbyState::Countdown(_) => true,
            LobbyState::Running => true,
            LobbyState::Finished => false,
        }
    }
}

/// Everything the server knows of one player.
pub struct PlayerStates {
    /// Identifier that the server gave the player when it joined.
    pub id: String,
    /// Position of the head, in units of which `SCALE` make an arena unit.
    pub position_x: i32,
    pub position_y: i32,
    /// Heading, in units of which `SCALE` make a radian.
    pub direction: i32,
    /// A dead player neither moves nor collides until the next round.
    pub is_alive: bool,
    /// Every position the head has had in this round, oldest first.
    pub trail: Vec<(i32, i32)>,
    /// The steering intent that is applied on every tick.
    pub current_direction: Direction,
}

/// Mathematical value of a `PlayerStates`.
pub struct PlayerModel {
    pub id: Seq<char>,
    pub position_x: i32,
    pub position_y: i32,
    pub direction: i32,
    pub is_alive: bool,
    pub trail: Seq<(i32, i32)>,
    pub current_direction: Direction,
}

impl View for PlayerStates {
    type V = PlayerModel;

    open spec fn view(&self) -> PlayerModel {
        PlayerModel {
            id: self.id@,
            position_x: self.position_x,
            position_y: self.position_y,
            direction: self.direction,
            is_alive: self.is_alive,
            trail: self.trail@,
            current_direction: self.current_direction,
        }
    }
}

/// Whether the point `(px, py)` lies closer to the head `(hx, hy)` than
/// `COLLISION_RADIUS`. A point at exactly that distance is not near.
pub open spec fn is_near(hx: int, hy: int, px: int, py: int) -> bool {
    (px - hx) * (px - hx) + (py - hy) * (py - hy) < COLLISION_RADIUS * COLLISION_RADIUS
}

/// Whether a head at `(hx, hy)` is near some point of `trail`.
pub open spec fn touches(hx: int, hy: int, trail: Seq<(i32, i32)>) -> bool {
    exists|i: int| 0 <= i < trail.len() && is_near(hx, hy, trail[i].0 as int, trail[i].1 as int)
}

/// The part of a player's own trail that can kill it: all but the
/// `SELF_TRAIL_GRACE` most recent points.
pub open spec fn lethal_part(trail: Seq<(i32, i32)>) -> Seq<(i32, i32)> {
    if trail.len() > SELF_TRAIL_GRACE {
        trail.take(trail.len() - SELF_TRAIL_GRACE)
    } else {
        Seq::empty()
    }
}

/// A coordinate after a move: the sum, held at the ends of the `i32` range.
pub open spec fn clamp_coordinate(v: int) -> i32 {
    if v < i32::MIN {
        i32::MIN
    } else if v > i32::MAX {
        i32::MAX
    } else {
        v as i32
    }
}

impl PlayerModel {
    /// The state a player has when it joins: at the origin, heading along the
    /// x axis, alive, without a trail, steering straight.
    pub open spec fn fresh(id: Seq<char>) -> PlayerModel {
        PlayerModel {
            id,
            position_x: 0,
            position_y: 0,
            direction: 0,
            is_alive: true,
            trail: Seq::empty(),
            current_direction: Direction::Straight,
        }
    }

    /// The player as a round begins for it: placed at `(x, y)` with the
    /// given heading, alive, without a trail, steering straight.
    pub open spec fn respawned(self, x: i32, y: i32, heading: i32) -> PlayerModel {
        PlayerModel {
            id: self.id,
            position_x: x,
            position_y: y,
            direction: heading,
            is_alive: true,
            trail: Seq::empty(),
            current_direction: Direction::Straight,
        }
    }

    /// Whether the player stands as a round begins for `before`: placed
    /// somewhere in the spawn area with some heading in `0 .. FULL_TURN`.
    pub open spec fn is_spawn_of(self, before: PlayerModel) -> bool {
        &&& self == before.respawned(self.position_x, self.position_y, self.direction)
        &&& SPAWN_MIN <= self.position_x < SPAWN_MAX
        &&& SPAWN_MIN <= self.position_y < SPAWN_MAX
        &&& self.has_heading()
    }

    /// Whether the heading lies in `0 .. FULL_TURN`.
    pub open spec fn has_heading(self) -> bool {
        super::heading::is_heading(self.direction as int)
    }

    /// Whether the head is near some point of `trail`.
    pub open spec fn hits(self, trail: Seq<(i32, i32)>) -> bool {
        touches(self.position_x as int, self.position_y as int, trail)
    }

    /// Whether the head is near a point of its own trail that it did not
    /// leave just now.
    pub open spec fn hits_own_trail(self) -> bool {
        self.hits(lethal_part(self.trail))
    }

    /// The player with the alive flag lowered if `dies`.
    pub open spec fn killed_if(self, dies: bool) -> PlayerModel {
        PlayerModel { is_alive: self.is_alive && !dies, ..self }
    }

    /// The heading after one tick of steering: a fixed angle more for
    /// `Left`, less for `Right`, wrapped into `0 .. FULL_TURN`; unchanged for
    /// `Straight`.
    pub open spec fn steered(self) -> PlayerModel {
        match self.current_direction {
            Direction::Left => PlayerModel {
                direction: wrap_angle(self.direction + ROTATION_SPEED_PER_TICK) as i32,
                ..self
            },
            Direction::Right => PlayerModel {
                direction: wrap_angle(self.direction - ROTATION_SPEED_PER_TICK) as i32,
                ..self
            },
            Direction::Straight => self,
        }
    }

    /// The player one step further along its heading, with the new position
    /// appended to the trail.
    pub open spec fn moved(self) -> PlayerModel {
        let step = tick_step(self.direction as int);
        let x = clamp_coordinate(self.position_x + step.0);
        let y = clamp_coordinate(self.position_y + step.1);
        PlayerModel { position_x: x, position_y: y, trail: self.trail.push((x, y)), ..self }
    }

    /// What one tick does to a player before collisions are looked at: a
    /// living player steers and moves, a dead one stays as it is.
    pub open spec fn advanced(self) -> PlayerModel {
        if self.is_alive {
            self.steered().moved()
        } else {
            self
        }
    }
}

impl PlayerStates {
    /// Creates the state of a player that has just joined.
    pub fn new(uuid: &str) -> (player: Self)
        ensures
            player@ == PlayerModel::fresh(uuid@),
    {
        Self {
            id: uuid.to_owned(),
            position_x: 0,
            position_y: 0,
            direction: 0,
            is_alive: true,
            trail: Vec::new(),
            current_direction: Direction::Straight,
        }
    }

    /// Whether the head is near the lethal part of the player's own trail.
    pub fn touches_own_trail(&self) -> (hit: bool)
        ensures
            hit == self@.hits_own_trail(),
    {
        let n = self.trail.len();
        let lethal: usize = if n > SELF_TRAIL_GRACE {
            n - SELF_TRAIL_GRACE
        } else {
            0
        };
        assert(self.trail@.take(lethal as int) =~= lethal_part(self.trail@));
        head_touches_prefix(self.position_x, self.position_y, &self.trail, lethal)
    }

    /// Kills the player if its head is near the lethal part of its own trail.
    pub fn collides_with_own_trail(&mut self)
        ensures
            final(self)@ == old(self)@.killed_if(old(self)@.hits_own_trail()),
    {
        if self.touches_own_trail() {
            self.is_alive = false;
        }
    }

    /// Kills the player if its head is near the trail of `other_player`.
    pub fn collides_with_other_player(&mut self, other_player: &PlayerStates)
        ensures
            final(self)@ == old(self)@.killed_if(old(self)@.hits(other_player@.trail)),
    {
        if self.collide_with_trail_collection(&other_player.trail) {
            self.is_alive = false;
        }
    }

    /// Places the player for the start of a round.
    pub fn respawn(&mut self, x: i32, y: i32, heading: i32)
        ensures
            final(self)@ == old(self)@.respawned(x, y, heading),
    {
        self.position_x = x;
        self.position_y = y;
        self.direction = heading;
        self.is_alive = true;
        self.current_direction = Direction::Straight;
        self.trail = Vec::new();
    }

    /// Sets the steering intent.
    pub fn set_direction(&mut self, direction: Direction)
        ensures
            final(self)@ == (PlayerModel { current_direction: direction, ..old(self)@ }),
    {
        self.current_direction = direction;
    }

    /// Whether the head is near some point of `trail_collection`.
    pub fn collide_with_trail_collection(&self, trail_collection: &Vec<(i32, i32)>) -> (hit: bool)
        ensures
            hit == self@.hits(trail_collection@),
    {
        assert(trail_collection@.take(trail_collection@.len() as int) =~= trail_collection@);
        head_touches_prefix(
            self.position_x,
            self.position_y,
            trail_collection,
            trail_collection.len(),
        )
    }

    /// Turns the heading by one tick of the current steering intent.
    pub fn steer_player(&mut self)
        ensures
            final(self)@ == old(self)@.steered(),
            !(old(self).current_direction is Straight) ==> final(self)@.has_heading(),
    {
        match self.current_direction {
            Direction::Left => {
                self.direction = normalize_angle(
                    self.direction as i64 + ROTATION_SPEED_PER_TICK as i64,
                );
            },
            Direction::Right => {
                self.direction = normalize_angle(
                    self.direction as i64 - ROTATION_SPEED_PER_TICK as i64,
                );
            },
            Direction::Straight => {},
        }
    }

    /// Moves the head one step along its heading and appends the new
    /// position to the trail.
    pub fn move_player(&mut self)
        ensures
            final(self)@ == old(self)@.moved(),
    {
        let step = heading_step(self.direction);
        self.position_x = add_clamped(self.position_x, step.0);
        self.position_y = add_clamped(self.position_y, step.1);
        self.trail.push((self.position_x, self.position_y));
    }
}

/// Adds a step to a coordinate; the sum stays at the end of the `i32` range
/// that it would pass.
pub fn add_clamped(coordinate: i32, step: i32) -> (sum: i32)
    ensures
        sum == clamp_coordinate(coordinate + step),
{
    let wide: i64 = coordinate as i64 + step as i64;
    if wide < i32::MIN as i64 {
        i32::MIN
    } else if wide > i32::MAX as i64 {
        i32::MAX
    } else {
        wide as i32
    }
}

/// Whether the point `(px, py)` is near the head `(hx, hy)`.
pub fn point_is_near(hx: i32, hy: i32, px: i32, py: i32) -> (near: bool)
    ensures
        near == is_near(hx as int, hy as int, px as int, py as int),
{
    let dx: i128 = px as i128 - hx as i128;
    let dy: i128 = py as i128 - hy as i128;
    let radius: i128 = COLLISION_RADIUS as i128;
    assert(0 <= dx * dx <= 0x1_0000_0000 * 0x1_0000_0000) by (nonlinear_arith)
        requires
            -0x1_0000_0000 <= dx <= 0x1_0000_0000,
    ;
    assert(0 <= dy * dy <= 0x1_0000_0000 * 0x1_0000_0000) by (nonlinear_arith)
        requires
            -0x1_0000_0000 <= dy <= 0x1_0000_0000,
    ;
    dx * dx + dy * dy < radius * radius
}

/// Whether the head `(hx, hy)` is near one of the first `count` points of `trail`.
fn head_touches_prefix(hx: i32, hy: i32, trail: &Vec<(i32, i32)>, count: usize) -> (hit: bool)
    requires
        count <= trail@.len(),
    ensures
        hit == touches(hx as int, hy as int, trail@.take(count as int)),
{
    let mut i: usize = 0;
    while i < count
        invariant
            i <= count <= trail@.len(),
            !touches(hx as int, hy as int, trail@.take(i as int)),
        decreases count - i,
    {
        let point = trail[i];
        if point_is_near(hx, hy, point.0, point.1) {
            assert(trail@.take(count as int)[i as int] == trail@[i as int]);
            return true;
        }
        assert forall|j: int| 0 <= j < i + 1 implies !is_near(
            hx as int,
            hy as int,
            (#[trigger] trail@.take(i + 1)[j]).0 as int,
            trail@.take(i + 1)[j].1 as int,
        ) by {
            if j < i {
                assert(trail@.take(i as int)[j] == trail@.take(i + 1)[j]);
            }
        }
        i = i + 1;
    }
    false
}

impl Clone for PlayerStates {
    fn clone(&self) -> (copy: Self)
        ensures
            copy@ == self@,
    {
        Self {
            id: self.id.clone(),
            position_x: self.position_x,
            position_y: self.position_y,
            direction: self.direction,
            is_alive: self.is_alive,
            trail: copy_trail(&self.trail),
            current_direction: self.current_direction,
        }
    }
}

/// Copies a trail point by point.
pub fn copy_trail(trail: &Vec<(i32, i32)>) -> (copy: Vec<(i32, i32)>)
    ensures
        copy@ == trail@,
{
    let mut copy: Vec<(i32, i32)> = Vec::new();
    let mut i: usize = 0;
    while i < trail.len()
        invariant
            i <= trail@.len(),
            copy@ == trail@.take(i as int),
        decreases trail@.len() - i,
    {
        copy.push(trail[i]);
        assert(copy@ =~= trail@.take(i + 1));
        i = i + 1;
    }
    assert(trail@.take(trail@.len() as int) =~= trail@);
    copy
}

} // verus!
