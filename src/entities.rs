use vstd::prelude::*;
use crate::dice::Dice;
use crate::geometry::{Point, Rect, SCREEN_HEIGHT, SCREEN_WIDTH};

verus! {

/// Size of the player's ship.
pub const PLAYER_WIDTH: i64 = 95;
pub const PLAYER_HEIGHT: i64 = 100;

/// Where the ship starts: the middle of the field's width, resting on the bottom edge.
pub const PLAYER_START_X: i64 = 400;

/// Hit points of a fresh player.
pub const PLAYER_HEALTH: u8 = 3;

/// Ticks between two shots (0.3 s at 60 ticks per second).
pub const SHOT_TIMEOUT: i64 = 18;

/// Size of a bullet, and where it leaves the ship.
pub const BULLET_SIZE: i64 = 20;
pub const BULLET_OFFSET: i64 = 40;

/// How far a bullet climbs in one tick.
pub const BULLET_SPEED: i64 = 20;

/// Size of an adversary.
pub const INVADER_WIDTH: i64 = 80;
pub const INVADER_HEIGHT: i64 = 60;

/// Horizontal patrol speed and vertical descent speed of an adversary, per tick.
pub const INVADER_SPEED: i64 = 3;
pub const INVADER_DESCENT: i64 = 1;

/// Range of the distance an adversary patrols before it turns back.
pub const PATROL_MIN: i64 = 50;
pub const PATROL_MAX: i64 = 300;

/// Band in which adversaries appear.
pub const SPAWN_MARGIN: i64 = 100;
pub const SPAWN_BOTTOM: i64 = 300;

/// Anything that occupies a rectangle of the play field.
pub trait Entity {
    /// The entity's fields are within the bounds the simulation keeps.
    spec fn wf(&self) -> bool;

    /// The rectangle the entity occupies.
    spec fn rect(&self) -> Rect;

    fn get_rect(&self) -> (r: Rect)
        requires
            self.wf(),
        ensures
            r == self.rect(),
    ;
}

/// A bullet of the player's; `position` is its upper-left corner.
#[derive(Clone, Copy, Debug, PartialEq, Eq, Structural)]
pub struct Bullet {
    pub position: Point,
}

impl Bullet {
    pub open spec fn new_spec(point: Point) -> Bullet {
        Bullet { position: Point { x: (point.x + BULLET_OFFSET) as i64, y: point.y } }
    }

    /// A bullet fired by a ship standing at `point`.
    pub fn new(point: Point) -> (r: Bullet)
        requires
            point.x + BULLET_OFFSET <= i64::MAX,
        ensures
            r == Bullet::new_spec(point),
            r.position.x == point.x + BULLET_OFFSET,
            r.position.y == point.y,
    {
        Bullet { position: Point { x: point.x + BULLET_OFFSET, y: point.y } }
    }
}

impl Entity for Bullet {
    open spec fn wf(&self) -> bool {
        -1000 <= self.position.x <= 1000 && -1000 <= self.position.y <= 1000
    }

    open spec fn rect(&self) -> Rect {
        Rect {
            x: self.position.x,
            y: (self.position.y - BULLET_SIZE) as i64,
            w: BULLET_SIZE,
            h: BULLET_SIZE,
        }
    }

    fn get_rect(&self) -> (r: Rect) {
        Rect { x: self.position.x, y: self.position.y - BULLET_SIZE, w: BULLET_SIZE, h: BULLET_SIZE }
    }
}

/// The two phases of an adversary's horizontal patrol.
#[derive(Clone, Copy, Debug, PartialEq, Eq, Structural)]
pub enum MoveState {
    Forward,
    Backwards,
}

/// An adversary's patrol: how far it may travel forward before turning back
/// (`allowed`), how far it has travelled (`current`), and where it heads.
#[derive(Clone, Copy, Debug, PartialEq, Eq, Structural)]
pub struct Moves {
    pub allowed: i64,
    pub current: i64,
    pub state: MoveState,
}

impl Moves {
    pub open spec fn wf(self) -> bool {
        &&& 0 <= self.allowed <= 1000
        &&& -INVADER_SPEED <= self.current <= self.allowed + INVADER_SPEED
        &&& self.state == MoveState::Forward ==> self.current <= self.allowed
        &&& self.state == MoveState::Backwards ==> self.current >= 0
    }

    /// A fresh patrol heading forward that turns after `allowed` pixels.
    pub fn with_allowed(allowed: i64) -> (r: Moves)
        ensures
            r == (Moves { allowed, current: 0, state: MoveState::Forward }),
    {
        Moves { allowed, current: 0, state: MoveState::Forward }
    }

    /// A fresh patrol heading forward, with a distance drawn from
    /// `[PATROL_MIN, PATROL_MAX)`.
    pub fn new(dice: &mut Dice) -> (r: Moves)
        ensures
            r.wf(),
            PATROL_MIN <= r.allowed < PATROL_MAX,
            r.current == 0,
            r.state == MoveState::Forward,
    {
        let allowed = dice.roll(PATROL_MIN, PATROL_MAX);
        Moves::with_allowed(allowed)
    }
}

/// An adversary; `position` is its upper-left corner.
#[derive(Clone, Copy, Debug, PartialEq, Eq, Structural)]
pub struct Invader {
    pub position: Point,
    pub health: u8,
    pub movement: Moves,
}

/// Rightmost `x` at which an adversary still fits the play field.
pub open spec fn invader_right_limit() -> int {
    SCREEN_WIDTH - INVADER_WIDTH
}

/// One tick of the patrol state machine for an adversary at `x`: the new
/// patrol and the new `x`.
pub open spec fn patrol_step(m: Moves, x: int) -> (Moves, int) {
    match m.state {
        MoveState::Forward => {
            let nx = x + INVADER_SPEED;
            let nc = m.current + INVADER_SPEED;
            let turn = m.allowed < nc || nx > invader_right_limit();
            (
                Moves {
                    allowed: m.allowed,
                    current: nc as i64,
                    state: if turn { MoveState::Backwards } else { MoveState::Forward },
                },
                nx,
            )
        },
        MoveState::Backwards => {
            let nx = x - INVADER_SPEED;
            let nc = m.current - INVADER_SPEED;
            let turn = 0 > nc || nx < 0;
            (
                Moves {
                    allowed: m.allowed,
                    current: nc as i64,
                    state: if turn { MoveState::Forward } else { MoveState::Backwards },
                },
                nx,
            )
        },
    }
}

impl Invader {
    /// What `Invader::new` can give: one hit point, a place in the spawn band
    /// of the upper half of the field, and a fresh forward patrol.
    pub open spec fn is_fresh_spawn(self) -> bool {
        &&& self.health == 1
        &&& SPAWN_MARGIN <= self.position.x < SCREEN_WIDTH - SPAWN_MARGIN
        &&& SPAWN_BOTTOM <= self.position.y < SCREEN_HEIGHT - SPAWN_MARGIN
        &&& PATROL_MIN <= self.movement.allowed < PATROL_MAX
        &&& self.movement.current == 0
        &&& self.movement.state == MoveState::Forward
    }

    /// A fresh adversary at `position` with one hit point.
    pub fn spawned_at(position: Point, movement: Moves) -> (r: Invader)
        ensures
            r == (Invader { position, health: 1, movement }),
    {
        Invader { position, health: 1, movement }
    }

    /// A fresh adversary at a random place of the upper half of the field,
    /// away from its sides, with a random patrol.
    pub fn new(dice: &mut Dice) -> (r: Invader)
        ensures
            r.wf(),
            r.is_fresh_spawn(),
            r.health == 1,
            SPAWN_MARGIN <= r.position.x < SCREEN_WIDTH - SPAWN_MARGIN,
            SPAWN_BOTTOM <= r.position.y < SCREEN_HEIGHT - SPAWN_MARGIN,
            PATROL_MIN <= r.movement.allowed < PATROL_MAX,
            r.movement.current == 0,
            r.movement.state == MoveState::Forward,
    {
        let x = dice.roll(SPAWN_MARGIN, SCREEN_WIDTH - SPAWN_MARGIN);
        let y = dice.roll(SPAWN_BOTTOM, SCREEN_HEIGHT - SPAWN_MARGIN);
        let movement = Moves::new(dice);
        Invader::spawned_at(Point { x, y }, movement)
    }

    /// The adversary after one tick of movement: one step down, then one
    /// step of its patrol.
    pub open spec fn stepped(self) -> Invader {
        let (m, x) = patrol_step(self.movement, self.position.x as int);
        Invader {
            position: Point { x: x as i64, y: (self.position.y - INVADER_DESCENT) as i64 },
            health: self.health,
            movement: m,
        }
    }

    /// Moves an adversary still above the bottom edge by one tick; returns
    /// whether it has reached that edge.
    pub fn step(&mut self) -> (escaped: bool)
        requires
            old(self).wf(),
            old(self).position.y > 0,
        ensures
            *final(self) == old(self).stepped(),
            final(self).wf(),
            escaped == (final(self).position.y <= 0),
    {
        self.position.y = self.position.y - INVADER_DESCENT;
        match self.movement.state {
            MoveState::Forward => {
                self.position.x = self.position.x + INVADER_SPEED;
                self.movement.current = self.movement.current + INVADER_SPEED;
                if self.movement.allowed < self.movement.current || self.position.x > SCREEN_WIDTH
                    - INVADER_WIDTH {
                    self.movement.state = MoveState::Backwards;
                }
            },
            MoveState::Backwards => {
                self.position.x = self.position.x - INVADER_SPEED;
                self.movement.current = self.movement.current - INVADER_SPEED;
                if 0 > self.movement.current || self.position.x < 0 {
                    self.movement.state = MoveState::Forward;
                }
            },
        }
        self.position.y <= 0
    }
}

impl Entity for Invader {
    open spec fn wf(&self) -> bool {
        &&& self.movement.wf()
        &&& -INVADER_SPEED <= self.position.x <= invader_right_limit() + INVADER_SPEED
        &&& self.movement.state == MoveState::Forward ==> self.position.x <= invader_right_limit()
        &&& self.movement.state == MoveState::Backwards ==> self.position.x >= 0
        &&& 0 <= self.position.y <= 1000
    }

    open spec fn rect(&self) -> Rect {
        Rect {
            x: self.position.x,
            y: (self.position.y - INVADER_HEIGHT) as i64,
            w: INVADER_WIDTH,
            h: INVADER_HEIGHT,
        }
    }

    fn get_rect(&self) -> (r: Rect) {
        Rect {
            x: self.position.x,
            y: self.position.y - INVADER_HEIGHT,
            w: INVADER_WIDTH,
            h: INVADER_HEIGHT,
        }
    }
}

/// The player's ship; `position` is its upper-left corner, and
/// `shot_timeout` the ticks left before it may fire again.
#[derive(Clone, Copy, Debug, PartialEq, Eq, Structural)]
pub struct Player {
    pub position: Point,
    pub health: u8,
    pub shot_timeout: i64,
}

/// Rightmost `x` at which the ship still fits the play field.
pub open spec fn player_right_limit() -> int {
    SCREEN_WIDTH - PLAYER_WIDTH
}

impl Player {
    /// The ship at the start of a session.
    pub open spec fn initial() -> Player {
        Player {
            position: Point { x: PLAYER_START_X, y: PLAYER_HEIGHT },
            health: PLAYER_HEALTH,
            shot_timeout: 0,
        }
    }

    pub fn new() -> (r: Player)
        ensures
            r == Player::initial(),
    {
        Player {
            position: Point { x: PLAYER_START_X, y: PLAYER_HEIGHT },
            health: PLAYER_HEALTH,
            shot_timeout: 0,
        }
    }

    /// Puts the ship back as it was at the start of the session.
    pub fn reset(&mut self)
        ensures
            *final(self) == Player::initial(),
    {
        self.position = Point { x: PLAYER_START_X, y: PLAYER_HEIGHT };
        self.health = PLAYER_HEALTH;
        self.shot_timeout = 0;
    }
}

impl Entity for Player {
    open spec fn wf(&self) -> bool {
        &&& 0 <= self.position.x <= player_right_limit()
        &&& PLAYER_HEIGHT <= self.position.y <= SCREEN_HEIGHT
        &&& self.health <= PLAYER_HEALTH
        &&& 0 <= self.shot_timeout <= SHOT_TIMEOUT
    }

    open spec fn rect(&self) -> Rect {
        Rect {
            x: self.position.x,
            y: (self.position.y - PLAYER_HEIGHT) as i64,
            w: PLAYER_WIDTH,
            h: PLAYER_HEIGHT,
        }
    }

    fn get_rect(&self) -> (r: Rect) {
        Rect {
            x: self.position.x,
            y: self.position.y - PLAYER_HEIGHT,
            w: PLAYER_WIDTH,
            h: PLAYER_HEIGHT,
        }
    }
}

/// `n` ticks of the patrol state machine from patrol `m` at `x`.
pub open spec fn patrol_run(m: Moves, x: int, n: nat) -> (Moves, int)
    decreases n,
{
    if n == 0 {
        (m, x)
    } else {
        let (m1, x1) = patrol_run(m, x, (n - 1) as nat);
        patrol_step(m1, x1)
    }
}

/// An adversary that starts heading forward with nothing travelled and
/// patrol distance `d` keeps heading forward, `INVADER_SPEED` a tick, as
/// long as it has travelled at most `d`, and turns back on the tick its
/// travel first exceeds `d`, unless the right edge comes first (the edge is
/// left out here by placing it far enough).
pub proof fn lemma_forward_leg(m: Moves, x: int, k: nat)
    requires
        m.state == MoveState::Forward,
        m.current == 0,
        0 <= m.allowed <= 1000,
        -1000 <= x,
        x + INVADER_SPEED * (m.allowed / INVADER_SPEED + 1) <= invader_right_limit(),
        k <= m.allowed / INVADER_SPEED + 1,
    ensures
        patrol_run(m, x, k).0.allowed == m.allowed,
        patrol_run(m, x, k).0.current == INVADER_SPEED * k,
        patrol_run(m, x, k).1 == x + INVADER_SPEED * k,
        patrol_run(m, x, k).0.state == if INVADER_SPEED * k <= m.allowed {
            MoveState::Forward
        } else {
            MoveState::Backwards
        },
        k == m.allowed / INVADER_SPEED + 1 ==> patrol_run(m, x, k).0.state == MoveState::Backwards,
    decreases k,
{
    let q = m.allowed / INVADER_SPEED;
    assert(INVADER_SPEED * q <= m.allowed < INVADER_SPEED * (q + 1)) by (nonlinear_arith)
        requires
            q == m.allowed / 3,
            0 <= m.allowed,
    ;
    if k > 0 {
        lemma_forward_leg(m, x, (k - 1) as nat);
        assert(INVADER_SPEED * (k - 1) <= m.allowed) by (nonlinear_arith)
            requires
                k <= q + 1,
                INVADER_SPEED * q <= m.allowed,
        ;
        assert(INVADER_SPEED * k <= INVADER_SPEED * (q + 1)) by (nonlinear_arith)
            requires
                k <= q + 1,
        ;
    }
}

/// Symmetrically, an adversary heading back with `c` travelled keeps heading
/// back, `INVADER_SPEED` a tick, as long as its travel stays at or above zero,
/// and turns forward on the tick it first drops below zero, unless the left
/// edge comes first (left out here by placing it far enough).
pub proof fn lemma_backward_leg(m: Moves, x: int, k: nat)
    requires
        m.state == MoveState::Backwards,
        0 <= m.current <= 1000,
        x <= 1000,
        x - INVADER_SPEED * (m.current / INVADER_SPEED + 1) >= 0,
        k <= m.current / INVADER_SPEED + 1,
    ensures
        patrol_run(m, x, k).0.allowed == m.allowed,
        patrol_run(m, x, k).0.current == m.current - INVADER_SPEED * k,
        patrol_run(m, x, k).1 == x - INVADER_SPEED * k,
        patrol_run(m, x, k).0.state == if m.current - INVADER_SPEED * k >= 0 {
            MoveState::Backwards
        } else {
            MoveState::Forward
        },
        k == m.current / INVADER_SPEED + 1 ==> patrol_run(m, x, k).0.state == MoveState::Forward,
    decreases k,
{
    let q = m.current / INVADER_SPEED;
    assert(INVADER_SPEED * q <= m.current < INVADER_SPEED * (q + 1)) by (nonlinear_arith)
        requires
            q == m.current / 3,
            0 <= m.current,
    ;
    if k > 0 {
        lemma_backward_leg(m, x, (k - 1) as nat);
        assert(INVADER_SPEED * (k - 1) <= m.current) by (nonlinear_arith)
            requires
                k <= q + 1,
                INVADER_SPEED * q <= m.current,
        ;
        assert(INVADER_SPEED * k <= INVADER_SPEED * (q + 1)) by (nonlinear_arith)
            requires
                k <= q + 1,
        ;
    }
}

} // verus!
