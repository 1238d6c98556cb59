use vstd::prelude::*;
use crate::dice::Dice;
use crate::entities::{
    patrol_step, player_right_limit, Bullet, Entity, Invader, Player, BULLET_SIZE, BULLET_SPEED,
    INVADER_DESCENT, PLAYER_HEIGHT, SHOT_TIMEOUT,
};
use crate::geometry::{Point, Rect, SCREEN_HEIGHT, SCREEN_WIDTH};
use crate::input::{lemma_keys_keep_axes, Command, InputState};

verus! {

/// The simulation keeps at least this many adversaries on the field.
pub const MIN_INVADERS: usize = 5;

/// What happened in a tick that the sound of the game reports.
#[derive(Clone, Copy, Debug, PartialEq, Eq, Structural)]
pub struct Signals {
    /// A bullet was fired.
    pub shot_fired: bool,
    /// Bullets that hit an adversary.
    pub bullet_hits: usize,
    /// Adversaries that rammed the ship while it still had health.
    pub ship_hits: usize,
}

impl Signals {
    pub open spec fn none() -> Signals {
        Signals { shot_fired: false, bullet_hits: 0, ship_hits: 0 }
    }
}

/// The whole simulation: input, the ship, bullets, adversaries and score.
pub struct State {
    pub input: InputState,
    pub player: Player,
    pub bullets: Vec<Bullet>,
    pub invaders: Vec<Invader>,
    /// The score: a point for each adversary killed, minus a point for each
    /// one that escapes past the bottom edge. It is not floored at zero, so
    /// it goes negative when adversaries escape before enough are killed;
    /// it only stops at the limits of `i64`.
    pub points: i64,
}

pub open spec fn clamp(v: int, lo: int, hi: int) -> int {
    if v < lo {
        lo
    } else if v > hi {
        hi
    } else {
        v
    }
}

/// Where the ship stands after one tick of `input`: it moves by the axes
/// but never leaves the field sideways, nor goes below its own height or
/// above the top edge.
pub open spec fn steered(p: Player, input: InputState) -> Point {
    Point {
        x: clamp(p.position.x + input.xaxis, 0, player_right_limit()) as i64,
        y: clamp(p.position.y + input.yaxis, PLAYER_HEIGHT as int, SCREEN_HEIGHT as int) as i64,
    }
}

/// The shot timeout after one tick has passed.
pub open spec fn cooled(t: i64) -> i64 {
    if t > 0 {
        (t - 1) as i64
    } else {
        0
    }
}

/// A bullet is kept while it is below the top edge.
pub open spec fn bullet_alive(b: Bullet) -> bool {
    b.position.y < SCREEN_HEIGHT
}

/// An adversary is kept while it has health and is above the bottom edge.
pub open spec fn invader_alive(i: Invader) -> bool {
    i.health > 0 && i.position.y > 0
}

/// The adversary `inv` can be hit by something occupying `r`.
pub open spec fn is_target(inv: Invader, r: Rect) -> bool {
    inv.health > 0 && inv.rect().meets(r)
}

/// `inv` after taking one point of damage.
pub open spec fn damaged(inv: Invader) -> Invader {
    Invader { health: (inv.health - 1) as u8, ..inv }
}

/// A bullet occupying `r` meets the adversaries `before`: the first live one
/// it overlaps, `hit`, takes one point of damage and the others are left as
/// they were; with no such adversary, nothing changes and `hit` is `None`.
pub open spec fn strikes(
    before: Seq<Invader>,
    r: Rect,
    hit: Option<usize>,
    after: Seq<Invader>,
) -> bool {
    match hit {
        Some(j) => {
            &&& j < before.len()
            &&& is_target(before[j as int], r)
            &&& forall|k: int| 0 <= k < j ==> !is_target(#[trigger] before[k], r)
            &&& after == before.update(j as int, damaged(before[j as int]))
        },
        None => {
            &&& forall|k: int| 0 <= k < before.len() ==> !is_target(#[trigger] before[k], r)
            &&& after == before
        },
    }
}

/// `j` is the first live adversary of `invs` that overlaps `r`.
pub open spec fn is_first_target(invs: Seq<Invader>, r: Rect, j: int) -> bool {
    &&& 0 <= j < invs.len()
    &&& is_target(invs[j], r)
    &&& forall|k: int| 0 <= k < j ==> !is_target(#[trigger] invs[k], r)
}

/// Some live adversary of `invs` overlaps `r`.
pub open spec fn hits_any(invs: Seq<Invader>, r: Rect) -> bool {
    exists|j: int| is_first_target(invs, r, j)
}

/// The first live adversary of `invs` that overlaps `r`, where there is one.
pub open spec fn first_target(invs: Seq<Invader>, r: Rect) -> int {
    choose|j: int| is_first_target(invs, r, j)
}

/// The rectangle of a bullet whose upper-left corner is at `(x, y)`.
pub open spec fn bullet_rect_at(x: i64, y: int) -> Rect {
    Rect { x, y: (y - BULLET_SIZE) as i64, w: BULLET_SIZE, h: BULLET_SIZE }
}

/// `p + 1`, but never above the largest score that can be held.
pub open spec fn score_inc(p: i64) -> i64 {
    if p < i64::MAX {
        (p + 1) as i64
    } else {
        p
    }
}

/// One bullet's flight in a tick against adversaries `invs`, with score `p`:
/// the bullet climbs; if it is still below the top edge and overlaps a live
/// adversary, the first such one takes a point of damage (a kill scores a
/// point) and the bullet is sent to the top edge. Gives the new bullet,
/// adversaries and score, and whether it hit.
pub open spec fn fly(b: Bullet, invs: Seq<Invader>, p: i64) -> (Bullet, Seq<Invader>, i64, bool) {
    let y = b.position.y + BULLET_SPEED;
    let r = bullet_rect_at(b.position.x, y);
    let moved = Bullet { position: Point { x: b.position.x, y: y as i64 } };
    if y < SCREEN_HEIGHT && hits_any(invs, r) {
        let j = first_target(invs, r);
        (
            Bullet { position: Point { x: b.position.x, y: SCREEN_HEIGHT } },
            invs.update(j, damaged(invs[j])),
            if invs[j].health == 1 {
                score_inc(p)
            } else {
                p
            },
            true,
        )
    } else {
        (moved, invs, p, false)
    }
}

/// The flights of the bullets `bs`, one after the other in their order:
/// the new bullets, adversaries and score, and how many bullets hit.
pub open spec fn fly_all(bs: Seq<Bullet>, invs: Seq<Invader>, p: i64) -> (
    Seq<Bullet>,
    Seq<Invader>,
    i64,
    nat,
)
    decreases bs.len(),
{
    if bs.len() == 0 {
        (bs, invs, p, 0)
    } else {
        let (bs0, invs0, p0, n0) = fly_all(bs.drop_last(), invs, p);
        let (b1, invs1, p1, hit) = fly(bs.last(), invs0, p0);
        (
            bs0.push(b1),
            invs1,
            p1,
            n0 + if hit {
                1nat
            } else {
                0nat
            },
        )
    }
}

/// What `strike` reports agrees with `first_target`.
pub proof fn lemma_strikes_first(before: Seq<Invader>, r: Rect, hit: Option<usize>, after: Seq<Invader>)
    requires
        strikes(before, r, hit, after),
    ensures
        hit is Some <==> hits_any(before, r),
        hit is Some ==> hit->0 == first_target(before, r),
{
    match hit {
        Some(j) => {
            assert(is_first_target(before, r, j as int));
            let c = first_target(before, r);
            assert(is_first_target(before, r, c));
            if c < j {
                assert(!is_target(before[c], r));
            }
            if c > j {
                assert(!is_target(before[j as int], r));
            }
        },
        None => {
            if hits_any(before, r) {
                let c = first_target(before, r);
                assert(!is_target(before[c], r));
            }
        },
    }
}

/// Where some live adversary overlaps `r`, there is a first one, at or
/// before it.
pub proof fn lemma_target_has_first(invs: Seq<Invader>, r: Rect, i: int)
    requires
        0 <= i < invs.len(),
        is_target(invs[i], r),
    ensures
        hits_any(invs, r),
        first_target(invs, r) <= i,
    decreases i,
{
    if exists|k: int| 0 <= k < i && is_target(#[trigger] invs[k], r) {
        let k = choose|k: int| 0 <= k < i && is_target(#[trigger] invs[k], r);
        lemma_target_has_first(invs, r, k);
    } else {
        assert(is_first_target(invs, r, i));
    }
    let h = first_target(invs, r);
    assert(is_first_target(invs, r, h));
    if h > i {
        assert(!is_target(invs[i], r));
    }
}

/// The law of one hit per bullet for a bullet's flight in a tick: a bullet
/// that, after its climb, is below the top edge and overlaps two live
/// adversaries damages exactly one adversary, the first live one it
/// overlaps (never the later of the two), by one point, and is sent to the
/// top edge to be pruned.
pub proof fn lemma_fly_one_hit(b: Bullet, invs: Seq<Invader>, p: i64, i: int, j: int)
    requires
        b.position.y + BULLET_SPEED < SCREEN_HEIGHT,
        0 <= i < j < invs.len(),
        is_target(invs[i], bullet_rect_at(b.position.x, b.position.y + BULLET_SPEED)),
        is_target(invs[j], bullet_rect_at(b.position.x, b.position.y + BULLET_SPEED)),
    ensures
        ({
            let (nb, after, _np, hit) = fly(b, invs, p);
            let h = first_target(invs, bullet_rect_at(b.position.x, b.position.y + BULLET_SPEED));
            &&& hit
            &&& nb.position.y == SCREEN_HEIGHT
            &&& 0 <= h <= i
            &&& after.len() == invs.len()
            &&& after[h].health == invs[h].health - 1
            &&& forall|k: int| 0 <= k < invs.len() && k != h ==> after[k] == invs[k]
            &&& after[j] == invs[j]
        }),
{
    let r = bullet_rect_at(b.position.x, b.position.y + BULLET_SPEED);
    lemma_target_has_first(invs, r, i);
    let h = first_target(invs, r);
    assert(is_first_target(invs, r, h));
    if h > i {
        assert(!is_target(invs[i], r));
    }
}

/// A rectangle small enough that overlap tests against it cannot overflow.
pub open spec fn rect_bounded(r: Rect) -> bool {
    -2000 <= r.x <= 2000 && -2000 <= r.y <= 2000 && 0 <= r.w <= 2000 && 0 <= r.h <= 2000
}

pub open spec fn invaders_wf(s: Seq<Invader>) -> bool {
    forall|k: int| 0 <= k < s.len() ==> (#[trigger] s[k]).wf()
}

/// Damages the first live adversary that overlaps `r`, and returns its index.
pub fn strike(invaders: &mut Vec<Invader>, r: &Rect) -> (hit: Option<usize>)
    requires
        invaders_wf(old(invaders)@),
        rect_bounded(*r),
    ensures
        strikes(old(invaders)@, *r, hit, final(invaders)@),
        invaders_wf(final(invaders)@),
{
    let n = invaders.len();
    let mut j: usize = 0;
    while j < n
        invariant
            n == invaders.len(),
            j <= n,
            invaders@ == old(invaders)@,
            invaders_wf(invaders@),
            rect_bounded(*r),
            forall|k: int| 0 <= k < j ==> !is_target(#[trigger] invaders@[k], *r),
        decreases n - j,
    {
        let inv = invaders[j];
        if inv.health > 0 {
            let ir = inv.get_rect();
            if ir.overlaps(r) {
                let hurt = Invader { health: inv.health - 1, ..inv };
                invaders.set(j, hurt);
                return Some(j);
            }
        }
        j = j + 1;
    }
    None
}

/// A bullet that overlaps two live adversaries at once damages exactly one
/// adversary: the first live one it overlaps, never the later of the two,
/// by one point; every other adversary is left untouched.
pub proof fn lemma_one_hit_per_bullet(
    before: Seq<Invader>,
    r: Rect,
    hit: Option<usize>,
    after: Seq<Invader>,
    i: int,
    j: int,
)
    requires
        strikes(before, r, hit, after),
        0 <= i < j < before.len(),
        is_target(before[i], r),
        is_target(before[j], r),
    ensures
        hit is Some,
        hit->0 <= i,
        after.len() == before.len(),
        after[hit->0 as int].health == before[hit->0 as int].health - 1,
        forall|k: int| 0 <= k < before.len() && k != hit->0 ==> after[k] == before[k],
        after[j] == before[j],
{
    if hit is None {
        assert(!is_target(before[i], r));
    }
    let h = hit->0 as int;
    if h > i {
        assert(!is_target(before[i], r));
    }
}

/// A bullet within the bounds the simulation keeps, at most at the top edge.
pub open spec fn bullet_in_field(b: Bullet) -> bool {
    b.wf() && b.position.y <= SCREEN_HEIGHT
}

pub open spec fn bullets_wf(s: Seq<Bullet>) -> bool {
    forall|k: int| 0 <= k < s.len() ==> bullet_in_field(#[trigger] s[k])
}

/// What a restart does to `before`: from a finished session (no health
/// left) everything returns to its initial value; otherwise nothing changes.
pub open spec fn restart_effect(before: State, after: State) -> bool {
    if before.player.health == 0 {
        after.is_initial()
    } else {
        after == before
    }
}

/// The bullets that survive the pruning step, in their order.
pub open spec fn kept_bullets(s: Seq<Bullet>) -> Seq<Bullet> {
    s.filter(|b: Bullet| bullet_alive(b))
}

/// The adversaries that survive the pruning step, in their order.
pub open spec fn kept_invaders(s: Seq<Invader>) -> Seq<Invader> {
    s.filter(|i: Invader| invader_alive(i))
}

/// `inv` after one tick of movement and the ram test against the ship's
/// rectangle `ship`: an adversary that reaches the ship dies at once.
pub open spec fn rammed(inv: Invader, ship: Rect) -> Invader {
    let s = inv.stepped();
    if is_target(s, ship) {
        Invader { health: 0, ..s }
    } else {
        s
    }
}

/// In a tick, every adversary that survives the pruning step takes exactly
/// one step of the patrol state machine and one step down, whether or not it
/// rams the ship; so over successive ticks its patrol follows `patrol_run`.
pub proof fn lemma_tick_patrols(inv: Invader, ship: Rect)
    ensures
        rammed(inv, ship).movement == patrol_step(inv.movement, inv.position.x as int).0,
        rammed(inv, ship).position.x == patrol_step(inv.movement, inv.position.x as int).1 as i64,
        rammed(inv, ship).position.y == (inv.position.y - INVADER_DESCENT) as i64,
{
}

/// How many of the adversaries `s` ram the ship in this tick.
pub open spec fn count_rams(s: Seq<Invader>, ship: Rect) -> nat
    decreases s.len(),
{
    if s.len() == 0 {
        0
    } else {
        count_rams(s.drop_last(), ship) + if is_target(s.last().stepped(), ship) {
            1nat
        } else {
            0nat
        }
    }
}

/// How many of the adversaries `s` reach the bottom edge in this tick.
pub open spec fn count_escapes(s: Seq<Invader>) -> nat
    decreases s.len(),
{
    if s.len() == 0 {
        0
    } else {
        count_escapes(s.drop_last()) + if s.last().stepped().position.y <= 0 {
            1nat
        } else {
            0nat
        }
    }
}

/// `a - b`, but never below zero.
pub open spec fn floor_sub(a: int, b: int) -> int {
    if a > b {
        a - b
    } else {
        0
    }
}

/// `p - n`, but never below the smallest score that can be held.
pub open spec fn score_sub(p: int, n: int) -> int {
    if p - n < i64::MIN {
        i64::MIN as int
    } else {
        p - n
    }
}

/// The state while a tick is under way: bullets may have climbed past the
/// top edge, where the pruning step removes them.
pub open spec fn moving_wf(s: State) -> bool {
    &&& s.input.wf()
    &&& s.player.wf()
    &&& forall|k: int| 0 <= k < s.bullets@.len() ==> (#[trigger] s.bullets@[k]).wf()
    &&& invaders_wf(s.invaders@)
}

/// How many adversaries a top-up adds to a field of `n`.
pub open spec fn shortfall(n: int) -> int {
    if n < MIN_INVADERS {
        MIN_INVADERS - n
    } else {
        0
    }
}

/// A tick of a running session from `before` to `after`, with signals `sig`,
/// where the top-up added the adversaries `spawned`.
pub open spec fn tick_outcome(before: State, spawned: Seq<Invader>, sig: Signals, after: State) -> bool {
    let pos = steered(before.player, before.input);
    let timeout = cooled(before.player.shot_timeout);
    let fired = before.input.fire && timeout <= 0;
    let bullets0 = if fired {
        before.bullets@.push(Bullet::new_spec(pos))
    } else {
        before.bullets@
    };
    let flown = fly_all(bullets0, before.invaders@ + spawned, before.points);
    let alive = kept_invaders(flown.1);
    let ship = (Player { position: pos, ..before.player }).rect();
    &&& spawned.len() == shortfall(before.invaders@.len() as int)
    &&& forall|k: int|
        0 <= k < spawned.len() ==> (#[trigger] spawned[k]).is_fresh_spawn()
    &&& sig.shot_fired == fired
    &&& sig.bullet_hits == flown.3
    &&& after.input == before.input
    &&& after.player.position == pos
    &&& after.player.shot_timeout == if fired {
        SHOT_TIMEOUT
    } else {
        timeout
    }
    &&& after.player.health == floor_sub(before.player.health as int, count_rams(alive, ship) as int)
    &&& sig.ship_hits == before.player.health - after.player.health
    &&& after.bullets@ == kept_bullets(flown.0)
    &&& after.invaders@.len() == alive.len()
    &&& forall|k: int| 0 <= k < alive.len() ==> #[trigger] after.invaders@[k] == rammed(alive[k], ship)
    &&& after.points == score_sub(flown.2 as int, count_escapes(alive) as int)
}

impl State {
    pub open spec fn wf(self) -> bool {
        &&& self.input.wf()
        &&& self.player.wf()
        &&& bullets_wf(self.bullets@)
        &&& invaders_wf(self.invaders@)
    }

    /// The session is over: the ship has no health left.
    pub open spec fn is_over(self) -> bool {
        self.player.health == 0
    }

    /// The state at the start of a session.
    pub open spec fn is_initial(self) -> bool {
        &&& self.input == InputState::idle()
        &&& self.player == Player::initial()
        &&& self.bullets@.len() == 0
        &&& self.invaders@.len() == 0
        &&& self.points == 0
    }

    pub fn new() -> (r: State)
        ensures
            r.is_initial(),
            r.wf(),
    {
        State {
            input: InputState::new(),
            player: Player::new(),
            bullets: Vec::new(),
            invaders: Vec::new(),
            points: 0,
        }
    }

    /// Whether the session is over.
    pub fn game_over(&self) -> (r: bool)
        ensures
            r == self.is_over(),
    {
        self.player.health == 0
    }

    /// Starts a new session once the current one is over; does nothing while
    /// it is still going.
    pub fn restart(&mut self)
        ensures
            restart_effect(*old(self), *final(self)),
    {
        if self.player.health == 0 {
            self.input = InputState::new();
            self.bullets = Vec::new();
            self.invaders = Vec::new();
            self.points = 0;
            self.player.reset();
        }
    }

    /// A key goes down.
    pub fn key_down_event(&mut self, cmd: Command)
        ensures
            old(self).wf() ==> final(self).wf(),
            final(self).input == old(self).input.pressed(cmd),
            final(self).player == old(self).player,
            final(self).bullets == old(self).bullets,
            final(self).invaders == old(self).invaders,
            final(self).points == old(self).points,
    {
        self.input.key_down(cmd);
        proof {
            if old(self).wf() {
                lemma_keys_keep_axes(old(self).input, cmd);
            }
        }
    }

    /// A key goes up; releasing the restart key restarts a finished session.
    pub fn key_up_event(&mut self, cmd: Command)
        ensures
            old(self).wf() ==> final(self).wf(),
            cmd == Command::Restart ==> restart_effect(*old(self), *final(self)),
            cmd != Command::Restart ==> {
                &&& final(self).input == old(self).input.released(cmd)
                &&& final(self).player == old(self).player
                &&& final(self).bullets == old(self).bullets
                &&& final(self).invaders == old(self).invaders
                &&& final(self).points == old(self).points
            },
    {
        match cmd {
            Command::Restart => self.restart(),
            _ => self.input.key_up(cmd),
        }
        proof {
            if old(self).wf() {
                lemma_keys_keep_axes(old(self).input, cmd);
            }
        }
    }

    /// Moves the ship by the input axes, kept within the field.
    pub fn move_player(&mut self)
        requires
            old(self).wf(),
        ensures
            final(self).wf(),
            final(self).player == (Player {
                position: steered(old(self).player, old(self).input),
                ..old(self).player
            }),
            final(self).input == old(self).input,
            final(self).bullets == old(self).bullets,
            final(self).invaders == old(self).invaders,
            final(self).points == old(self).points,
    {
        let right = SCREEN_WIDTH - self.player.get_rect().w;
        let x = self.player.position.x + self.input.xaxis;
        self.player.position.x = if x < 0 {
            0
        } else if x > right {
            right
        } else {
            x
        };
        let bottom = self.player.get_rect().h;
        let y = self.player.position.y + self.input.yaxis;
        self.player.position.y = if y < bottom {
            bottom
        } else if y > SCREEN_HEIGHT {
            SCREEN_HEIGHT
        } else {
            y
        };
    }

    /// One tick passes on the shot timeout; then, if fire is held and the
    /// timeout has run out, a bullet leaves the ship and the timeout starts
    /// again. Returns whether a bullet was fired.
    pub fn cool_down_and_fire(&mut self) -> (shot: bool)
        requires
            old(self).wf(),
        ensures
            final(self).wf(),
            shot == (old(self).input.fire && cooled(old(self).player.shot_timeout) <= 0),
            shot ==> final(self).bullets@ == old(self).bullets@.push(
                Bullet::new_spec(old(self).player.position),
            ),
            shot ==> final(self).player.shot_timeout == SHOT_TIMEOUT,
            !shot ==> final(self).bullets@ == old(self).bullets@,
            !shot ==> final(self).player.shot_timeout == cooled(old(self).player.shot_timeout),
            final(self).player.position == old(self).player.position,
            final(self).player.health == old(self).player.health,
            final(self).input == old(self).input,
            final(self).invaders == old(self).invaders,
            final(self).points == old(self).points,
    {
        if self.player.shot_timeout > 0 {
            self.player.shot_timeout = self.player.shot_timeout - 1;
        }
        if self.input.fire && self.player.shot_timeout <= 0 {
            self.bullets.push(Bullet::new(self.player.position));
            self.player.shot_timeout = SHOT_TIMEOUT;
            true
        } else {
            false
        }
    }

    /// Adds fresh adversaries until at least `MIN_INVADERS` are on the field.
    pub fn top_up(&mut self, dice: &mut Dice)
        requires
            old(self).wf(),
        ensures
            final(self).wf(),
            final(self).invaders@.len() == if old(self).invaders@.len() < MIN_INVADERS {
                MIN_INVADERS as int
            } else {
                old(self).invaders@.len() as int
            },
            final(self).invaders@.subrange(0, old(self).invaders@.len() as int)
                == old(self).invaders@,
            forall|k: int|
                old(self).invaders@.len() <= k < final(self).invaders@.len()
                    ==> (#[trigger] final(self).invaders@[k]).is_fresh_spawn(),
            final(self).input == old(self).input,
            final(self).player == old(self).player,
            final(self).bullets == old(self).bullets,
            final(self).points == old(self).points,
    {
        while self.invaders.len() < MIN_INVADERS
            invariant
                self.wf(),
                self.invaders@.len() <= (if old(self).invaders@.len() < MIN_INVADERS {
                    MIN_INVADERS as int
                } else {
                    old(self).invaders@.len() as int
                }),
                self.invaders@.len() >= old(self).invaders@.len(),
                self.invaders@.subrange(0, old(self).invaders@.len() as int)
                    == old(self).invaders@,
                forall|k: int|
                    old(self).invaders@.len() <= k < self.invaders@.len() ==> (
                    #[trigger] self.invaders@[k]).is_fresh_spawn(),
                self.input == old(self).input,
                self.player == old(self).player,
                self.bullets == old(self).bullets,
                self.points == old(self).points,
            decreases MIN_INVADERS - self.invaders@.len(),
        {
            let inv = Invader::new(dice);
            self.invaders.push(inv);
            assert(self.invaders@.subrange(0, old(self).invaders@.len() as int)
                =~= old(self).invaders@);
        }
    }

    /// Each bullet climbs one step; one still below the top edge damages the
    /// first live adversary it overlaps, if any, and is then sent to the top
    /// edge so that the pruning step removes it. An adversary whose health
    /// reaches zero scores a point. Returns the number of bullets that hit.
    pub fn resolve_bullets(&mut self) -> (hits: usize)
        requires
            old(self).wf(),
        ensures
            moving_wf(*final(self)),
            final(self).input == old(self).input,
            final(self).player == old(self).player,
            final(self).invaders@.len() == old(self).invaders@.len(),
            forall|k: int|
                0 <= k < old(self).invaders@.len() ==> {
                    &&& (#[trigger] final(self).invaders@[k]).position == old(
                        self,
                    ).invaders@[k].position
                    &&& final(self).invaders@[k].movement == old(self).invaders@[k].movement
                    &&& final(self).invaders@[k].health <= old(self).invaders@[k].health
                },
            final(self).bullets@.len() == old(self).bullets@.len(),
            forall|k: int|
                0 <= k < old(self).bullets@.len() ==> {
                    let was = old(self).bullets@[k].position;
                    let now = (#[trigger] final(self).bullets@[k]).position;
                    &&& now.x == was.x
                    &&& now.y == was.y + BULLET_SPEED || (was.y + BULLET_SPEED < SCREEN_HEIGHT
                        && now.y == SCREEN_HEIGHT)
                },
            final(self).points >= old(self).points,
            hits <= old(self).bullets@.len(),
            hits == 0 ==> final(self).invaders@ == old(self).invaders@,
            (final(self).bullets@, final(self).invaders@, final(self).points, hits as nat)
                == fly_all(old(self).bullets@, old(self).invaders@, old(self).points),
    {
        let n = self.bullets.len();
        let mut hits: usize = 0;
        let mut i: usize = 0;
        while i < n
            invariant
                n == self.bullets@.len(),
                n == old(self).bullets@.len(),
                i <= n,
                hits <= i,
                self.input == old(self).input,
                self.player == old(self).player,
                self.input.wf(),
                self.player.wf(),
                invaders_wf(self.invaders@),
                forall|k: int| 0 <= k < i ==> (#[trigger] self.bullets@[k]).wf(),
                forall|k: int| i <= k < n ==> self.bullets@[k] == old(self).bullets@[k],
                bullets_wf(old(self).bullets@),
                self.invaders@.len() == old(self).invaders@.len(),
                forall|k: int|
                    0 <= k < old(self).invaders@.len() ==> {
                        &&& (#[trigger] self.invaders@[k]).position
                            == old(self).invaders@[k].position
                        &&& self.invaders@[k].movement == old(self).invaders@[k].movement
                        &&& self.invaders@[k].health <= old(self).invaders@[k].health
                    },
                forall|k: int|
                    0 <= k < i ==> {
                        let was = old(self).bullets@[k].position;
                        let now = (#[trigger] self.bullets@[k]).position;
                        &&& now.x == was.x
                        &&& now.y == was.y + BULLET_SPEED || (was.y + BULLET_SPEED
                            < SCREEN_HEIGHT && now.y == SCREEN_HEIGHT)
                    },
                self.points >= old(self).points,
                hits == 0 ==> self.invaders@ == old(self).invaders@,
                (self.bullets@.subrange(0, i as int), self.invaders@, self.points, hits as nat)
                    == fly_all(old(self).bullets@.subrange(0, i as int), old(self).invaders@, old(self).points),
            decreases n - i,
        {
            let ghost pre = (self.bullets@.subrange(0, i as int), self.invaders@, self.points);
            let mut b = self.bullets[i];
            assert(bullet_in_field(old(self).bullets@[i as int]));
            b.position.y = b.position.y + BULLET_SPEED;
            if b.position.y < SCREEN_HEIGHT {
                let r = b.get_rect();
                let ghost before = self.invaders@;
                let hit = strike(&mut self.invaders, &r);
                proof {
                    lemma_strikes_first(before, r, hit, self.invaders@);
                }
                match hit {
                    Some(j) => {
                        if self.invaders[j].health == 0 && self.points < i64::MAX {
                            self.points = self.points + 1;
                        }
                        b.position.y = SCREEN_HEIGHT;
                        hits = hits + 1;
                    },
                    None => {},
                }
                assert forall|k: int| 0 <= k < old(self).invaders@.len() implies {
                    &&& (#[trigger] self.invaders@[k]).position == old(self).invaders@[k].position
                    &&& self.invaders@[k].movement == old(self).invaders@[k].movement
                    &&& self.invaders@[k].health <= old(self).invaders@[k].health
                } by {
                    assert(before[k].position == old(self).invaders@[k].position);
                }
            }
            self.bullets.set(i, b);
            proof {
                let s = old(self).bullets@.subrange(0, i + 1);
                assert(s.drop_last() =~= old(self).bullets@.subrange(0, i as int));
                assert(s.last() == old(self).bullets@[i as int]);
                assert(self.bullets@.subrange(0, i + 1) =~= pre.0.push(b));
            }
            i = i + 1;
        }
        assert(old(self).bullets@.subrange(0, n as int) =~= old(self).bullets@);
        assert(self.bullets@.subrange(0, n as int) =~= self.bullets@);
        hits
    }

    /// Removes the bullets that reached the top edge and the adversaries that
    /// are dead or reached the bottom edge; the others keep their order.
    pub fn prune(&mut self)
        requires
            moving_wf(*old(self)),
        ensures
            final(self).wf(),
            final(self).bullets@ == kept_bullets(old(self).bullets@),
            final(self).invaders@ == kept_invaders(old(self).invaders@),
            forall|k: int|
                0 <= k < final(self).invaders@.len() ==> invader_alive(
                    #[trigger] final(self).invaders@[k],
                ),
            final(self).input == old(self).input,
            final(self).player == old(self).player,
            final(self).points == old(self).points,
    {
        let mut bullets: Vec<Bullet> = Vec::new();
        proof {
            reveal(Seq::filter);
        }
        let n = self.bullets.len();
        let mut i: usize = 0;
        while i < n
            invariant
                n == self.bullets@.len(),
                i <= n,
                self.bullets@ == old(self).bullets@,
                moving_wf(*old(self)),
                bullets@ == kept_bullets(self.bullets@.subrange(0, i as int)),
                bullets_wf(bullets@),
            decreases n - i,
        {
            let b = self.bullets[i];
            if b.position.y < SCREEN_HEIGHT {
                bullets.push(b);
            }
            proof {
                reveal(Seq::filter);
                let s = self.bullets@.subrange(0, i + 1);
                assert(s.drop_last() =~= self.bullets@.subrange(0, i as int));
                assert(s.last() == b);
            }
            i = i + 1;
        }
        assert(self.bullets@.subrange(0, n as int) =~= self.bullets@);
        let mut invaders: Vec<Invader> = Vec::new();
        let m = self.invaders.len();
        let mut i: usize = 0;
        while i < m
            invariant
                m == self.invaders@.len(),
                i <= m,
                self.invaders@ == old(self).invaders@,
                moving_wf(*old(self)),
                invaders@ == kept_invaders(self.invaders@.subrange(0, i as int)),
                invaders_wf(invaders@),
                forall|k: int| 0 <= k < invaders@.len() ==> invader_alive(#[trigger] invaders@[k]),
            decreases m - i,
        {
            let v = self.invaders[i];
            if v.health > 0 && v.position.y > 0 {
                invaders.push(v);
            }
            proof {
                reveal(Seq::filter);
                let s = self.invaders@.subrange(0, i + 1);
                assert(s.drop_last() =~= self.invaders@.subrange(0, i as int));
                assert(s.last() == v);
            }
            i = i + 1;
        }
        assert(self.invaders@.subrange(0, m as int) =~= self.invaders@);
        self.bullets = bullets;
        self.invaders = invaders;
    }

    /// Moves every adversary one tick (an escape past the bottom edge costs a
    /// point), then kills each live one that overlaps the ship, which loses
    /// one health per such adversary while it has any. Returns the number of
    /// adversaries that took health from the ship.
    pub fn move_invaders(&mut self) -> (hits: usize)
        requires
            old(self).wf(),
            forall|k: int|
                0 <= k < old(self).invaders@.len() ==> (#[trigger] old(
                    self,
                ).invaders@[k]).position.y > 0,
        ensures
            final(self).wf(),
            final(self).invaders@.len() == old(self).invaders@.len(),
            forall|k: int|
                0 <= k < old(self).invaders@.len() ==> #[trigger] final(self).invaders@[k]
                    == rammed(old(self).invaders@[k], old(self).player.rect()),
            final(self).player.health == floor_sub(
                old(self).player.health as int,
                count_rams(old(self).invaders@, old(self).player.rect()) as int,
            ),
            hits == old(self).player.health - final(self).player.health,
            final(self).points == score_sub(
                old(self).points as int,
                count_escapes(old(self).invaders@) as int,
            ),
            final(self).player.position == old(self).player.position,
            final(self).player.shot_timeout == old(self).player.shot_timeout,
            final(self).input == old(self).input,
            final(self).bullets == old(self).bullets,
    {
        let ship = self.player.get_rect();
        let n = self.invaders.len();
        let mut hits: usize = 0;
        let mut i: usize = 0;
        while i < n
            invariant
                n == self.invaders@.len(),
                n == old(self).invaders@.len(),
                i <= n,
                ship == old(self).player.rect(),
                self.input == old(self).input,
                self.bullets == old(self).bullets,
                self.input.wf(),
                bullets_wf(self.bullets@),
                self.player.position == old(self).player.position,
                self.player.shot_timeout == old(self).player.shot_timeout,
                old(self).player.wf(),
                invaders_wf(self.invaders@),
                forall|k: int|
                    0 <= k < i ==> #[trigger] self.invaders@[k] == rammed(
                        old(self).invaders@[k],
                        ship,
                    ),
                forall|k: int| i <= k < n ==> #[trigger] self.invaders@[k] == old(self).invaders@[k],
                forall|k: int|
                    0 <= k < n ==> (#[trigger] old(self).invaders@[k]).position.y > 0,
                self.player.health == floor_sub(
                    old(self).player.health as int,
                    count_rams(old(self).invaders@.subrange(0, i as int), ship) as int,
                ),
                hits == old(self).player.health - self.player.health,
                self.points == score_sub(
                    old(self).points as int,
                    count_escapes(old(self).invaders@.subrange(0, i as int)) as int,
                ),
            decreases n - i,
        {
            let mut inv = self.invaders[i];
            let escaped = inv.step();
            if escaped && self.points > i64::MIN {
                self.points = self.points - 1;
            }
            if inv.health > 0 && inv.get_rect().overlaps(&ship) {
                inv.health = 0;
                if self.player.health > 0 {
                    self.player.health = self.player.health - 1;
                    hits = hits + 1;
                }
            }
            self.invaders.set(i, inv);
            proof {
                let s = old(self).invaders@.subrange(0, i + 1);
                assert(s.drop_last() =~= old(self).invaders@.subrange(0, i as int));
                assert(s.last() == old(self).invaders@[i as int]);
            }
            i = i + 1;
        }
        assert(old(self).invaders@.subrange(0, n as int) =~= old(self).invaders@);
        hits
    }

    /// Runs one tick of the simulation, `1/60` s. A finished session is
    /// frozen: nothing changes. Otherwise, in order: the ship moves, the shot
    /// timeout runs down and a bullet may be fired, the adversaries are
    /// topped up to `MIN_INVADERS`, bullets fly and hit, the dead and the
    /// departed are pruned, and the adversaries move and ram the ship.
    #[verifier::rlimit(60)]
    pub fn update(&mut self, dice: &mut Dice) -> (sig: Signals)
        requires
            old(self).wf(),
        ensures
            final(self).wf(),
            0 <= final(self).player.rect().x <= SCREEN_WIDTH - final(self).player.rect().w,
            old(self).is_over() ==> *final(self) == *old(self) && sig == Signals::none(),
            !old(self).is_over() ==> exists|spawned: Seq<Invader>|
                tick_outcome(*old(self), spawned, sig, *final(self)),
            !old(self).is_over() ==> {
                &&& final(self).input == old(self).input
                &&& final(self).player.position == steered(old(self).player, old(self).input)
                &&& sig.shot_fired == (old(self).input.fire && cooled(
                    old(self).player.shot_timeout,
                ) <= 0)
                &&& final(self).player.shot_timeout == if sig.shot_fired {
                    SHOT_TIMEOUT
                } else {
                    cooled(old(self).player.shot_timeout)
                }
                &&& final(self).player.health == old(self).player.health - sig.ship_hits
            },
            !old(self).is_over() && sig.bullet_hits == 0 && (forall|k: int|
                0 <= k < old(self).invaders@.len() ==> invader_alive(
                    #[trigger] old(self).invaders@[k],
                )) ==> final(self).invaders@.len() >= MIN_INVADERS,
    {
        if self.player.health == 0 {
            return Signals { shot_fired: false, bullet_hits: 0, ship_hits: 0 };
        }
        self.move_player();
        let shot_fired = self.cool_down_and_fire();
        let ghost fired_bullets = self.bullets@;
        let ghost fired_points = self.points;
        let ghost before = self.invaders@;
        self.top_up(dice);
        let ghost topped = self.invaders@;
        let bullet_hits = self.resolve_bullets();
        let ghost struck = self.invaders@;
        let ghost flown = (self.bullets@, self.invaders@, self.points, bullet_hits as nat);
        let ghost ship = self.player.rect();
        self.prune();
        let ghost alive = self.invaders@;
        proof {
            if bullet_hits == 0 && (forall|k: int|
                0 <= k < before.len() ==> invader_alive(#[trigger] before[k])) {
                assert forall|k: int| 0 <= k < struck.len() implies invader_alive(
                    #[trigger] struck[k],
                ) by {
                    if k < before.len() {
                        assert(topped.subrange(0, before.len() as int)[k] == topped[k]);
                    }
                }
                lemma_kept_all(struck);
            }
        }
        let ship_hits = self.move_invaders();
        let sig = Signals { shot_fired, bullet_hits, ship_hits };
        proof {
            let spawned = topped.subrange(before.len() as int, topped.len() as int);
            assert(topped =~= before + spawned);
            let pos = steered(old(self).player, old(self).input);
            assert(ship == (Player { position: pos, ..old(self).player }).rect());
            assert(flown == fly_all(fired_bullets, before + spawned, fired_points));
            assert(alive == kept_invaders(flown.1));
            assert forall|k: int| 0 <= k < spawned.len() implies (
            #[trigger] spawned[k]).is_fresh_spawn() by {
                assert(spawned[k] == topped[before.len() + k]);
                assert(topped[before.len() + k].is_fresh_spawn());
            }
            assert(tick_outcome(*old(self), spawned, sig, *self));
        }
        sig
    }
}

/// Pruning keeps a sequence of adversaries that are all alive as it is.
pub proof fn lemma_kept_all(s: Seq<Invader>)
    requires
        forall|k: int| 0 <= k < s.len() ==> invader_alive(#[trigger] s[k]),
    ensures
        kept_invaders(s) == s,
    decreases s.len(),
{
    reveal(Seq::filter);
    if s.len() > 0 {
        lemma_kept_all(s.drop_last());
        assert(invader_alive(s[s.len() - 1]));
        assert(s.drop_last().push(s.last()) =~= s);
    }
}

/// Restarting twice in a row from a finished session leaves the same state
/// as restarting once: the initial one, with no score, full health, no
/// bullets or adversaries and nothing held.
pub proof fn lemma_restart_idempotent(s0: State, s1: State, s2: State)
    requires
        s0.is_over(),
        restart_effect(s0, s1),
        restart_effect(s1, s2),
    ensures
        s1.is_initial(),
        s2 == s1,
{
}

} // verus!
